//! The architectural state as a mathematical value, and what each
//! instruction does to it. The engine's functions are proved against these
//! definitions.
use vstd::prelude::*;

use crate::bitutils::{field, sext};
use crate::cpu::compressed::expand;
use crate::cpu::rv32::{branch_offset, jal_offset, store_offset};
use crate::mmu::{le_value, store_spec, test_verdict, Status};
use crate::register::write_spec;
use crate::shadowstack::{pop_spec, push_spec, SHADOW_STACK_SIZE};

verus! {

/// Width in bytes of register operands.
pub const XLEN: u8 = 4;

/// Major opcodes, bits `6:2` of an instruction word.
pub const OP_LUI: u32 = 0b01101;
pub const OP_AUIPC: u32 = 0b00101;
pub const OP_JAL: u32 = 0b11011;
pub const OP_JALR: u32 = 0b11001;
pub const OP_BRANCH: u32 = 0b11000;
pub const OP_LOAD: u32 = 0b00000;
pub const OP_STORE: u32 = 0b01000;
pub const OP_IMM: u32 = 0b00100;
pub const OP_REG: u32 = 0b01100;
pub const OP_SYSTEM: u32 = 0b11100;
pub const OP_FENCE: u32 = 0b00011;

/// `funct3` of the branches.
pub const BEQ: u32 = 0b000;
pub const BNE: u32 = 0b001;
pub const BLT: u32 = 0b100;
pub const BGE: u32 = 0b101;
pub const BLTU: u32 = 0b110;
pub const BGEU: u32 = 0b111;

/// `funct3` of the loads.
pub const LB: u32 = 0b000;
pub const LH: u32 = 0b001;
pub const LW: u32 = 0b010;
pub const LBU: u32 = 0b100;
pub const LHU: u32 = 0b101;

/// `funct3` of the stores.
pub const SB: u32 = 0b000;
pub const SH: u32 = 0b001;
pub const SW: u32 = 0b010;

/// `funct3` of the register-immediate operations.
pub const ADDI: u32 = 0b000;
pub const SLLI: u32 = 0b001;
pub const SLTI: u32 = 0b010;
pub const SLTIU: u32 = 0b011;
pub const XORI: u32 = 0b100;
pub const SRLI_SRAI: u32 = 0b101;
pub const ORI: u32 = 0b110;
pub const ANDI: u32 = 0b111;

/// `funct3` of add and subtract, the one register-register operation.
pub const ADD_SUB: u32 = 0b000;

/// `funct3` of the system instructions.
pub const EXCEPT: u32 = 0b000;
pub const CSRRW: u32 = 0b001;
pub const CSRRS: u32 = 0b010;
pub const CSRRC: u32 = 0b011;
pub const CSRRWI: u32 = 0b101;
pub const CSRRSI: u32 = 0b110;
pub const CSRRCI: u32 = 0b111;

/// Bits `31:20` of an environment call and of a trap return.
pub const ECALL: u32 = 0;
pub const MRET: u32 = 0b0011_0000_0010;

/// Privilege levels.
pub const PRIV_USER: u8 = 0b00;
pub const PRIV_SUPERVISOR: u8 = 0b01;
pub const PRIV_HYPERVISOR: u8 = 0b10;
pub const PRIV_MACHINE: u8 = 0b11;

/// The control/status registers that trap handling uses: the PC saved on a
/// trap, the trap cause, the trap vector, and the register an environment
/// call clears.
pub const CSR_MEPC: usize = 0x341;
pub const CSR_MCAUSE: usize = 0x342;
pub const CSR_MTVEC: usize = 0x305;
pub const CSR_SCAUSE: usize = 0x142;

/// The trap cause recorded for an environment call from machine mode.
pub const CAUSE_ECALL_MACHINE: u64 = 11;

/// Bit 0 of a jump target is cleared with this mask.
pub const CLEAR_BIT0: u32 = !1u32;

/// The architectural state.
pub struct Machine {
    pub pc: u64,
    pub regs: Seq<u64>,
    pub csrs: Seq<u64>,
    pub privilege: u8,
    pub mem: Seq<u8>,
    pub test_mode: bool,
    pub stack: Seq<u64>,
}

impl Machine {
    /// The shapes of the containers.
    pub open spec fn wf(self) -> bool {
        &&& self.regs.len() == 32
        &&& self.csrs.len() == 4096
        &&& self.stack.len() <= SHADOW_STACK_SIZE
    }

    /// Register `i` as an operand: its low 32 bits, zero for register 0.
    pub open spec fn reg(self, i: int) -> u64 {
        if i == 0 {
            0
        } else {
            self.regs[i] as u32 as u64
        }
    }

    /// The state after writing `v` to register `i` at operand width.
    pub open spec fn with_reg(self, i: int, v: u64) -> Machine {
        Machine { regs: write_spec(self.regs, i, v, XLEN), ..self }
    }

    /// The state with the PC set to `pc`.
    pub open spec fn with_pc(self, pc: u64) -> Machine {
        Machine { pc, ..self }
    }

    /// The state with CSR `c` set to `v`.
    pub open spec fn with_csr(self, c: int, v: u64) -> Machine {
        Machine { csrs: self.csrs.update(c, v), ..self }
    }
}

/// The major opcode, bits `6:2`.
pub open spec fn opcode(inst: u32) -> u32 {
    field(inst, 6, 2)
}

/// The `funct3` field, bits `14:12`.
pub open spec fn funct3(inst: u32) -> u32 {
    field(inst, 14, 12)
}

/// The destination register, bits `11:7`.
pub open spec fn rd(inst: u32) -> int {
    field(inst, 11, 7) as int
}

/// The first source register, bits `19:15`.
pub open spec fn rs1(inst: u32) -> int {
    field(inst, 19, 15) as int
}

/// The second source register, bits `24:20`.
pub open spec fn rs2(inst: u32) -> int {
    field(inst, 24, 20) as int
}

/// The sign-extended 12-bit immediate of loads, jumps through a register
/// and register-immediate operations.
pub open spec fn imm_i(inst: u32) -> u32 {
    sext(field(inst, 31, 20), 11)
}

/// The sign-extended 20-bit upper immediate.
pub open spec fn imm_u(inst: u32) -> u32 {
    sext(field(inst, 31, 12), 19)
}

/// Load upper immediate: `rd <- imm << 12`.
pub open spec fn lui_spec(m: Machine, inst: u32) -> Machine {
    m.with_reg(rd(inst), (imm_u(inst) << 12u32) as u64)
}

/// Add upper immediate to PC: `rd <- pc + imm`.
pub open spec fn auipc_spec(m: Machine, inst: u32) -> Machine {
    m.with_reg(rd(inst), m.pc.wrapping_add(imm_u(inst) as u64))
}

/// The PC plus a 32-bit offset, modulo 2^32.
pub open spec fn pc_plus(pc: u64, offset: u32) -> u64 {
    (pc as u32).wrapping_add(offset) as u64
}

/// Jump and link: `rd <- pc + 4`, `pc <- pc + offset`; with `rd == 1` a
/// call, whose target is pushed onto the shadow stack.
pub open spec fn jal_spec(m: Machine, inst: u32) -> Option<Machine> {
    let linked = m.with_reg(rd(inst), m.pc.wrapping_add(4));
    let target = pc_plus(m.pc, jal_offset(inst));
    if rd(inst) == 1 {
        match push_spec(m.stack, target) {
            Some(s) => Some(Machine { pc: target, stack: s, ..linked }),
            None => None,
        }
    } else {
        Some(linked.with_pc(target))
    }
}

/// The return pattern: a jump through register 1 with no offset and no link.
pub open spec fn is_return(inst: u32) -> bool {
    rd(inst) == 0 && rs1(inst) == 1 && field(inst, 31, 20) == 0
}

/// The target of a jump through a register: `rs1 + imm` modulo 2^32, with
/// bit 0 cleared.
pub open spec fn jalr_target(m: Machine, inst: u32) -> u64 {
    ((m.reg(rs1(inst)) as u32).wrapping_add(imm_i(inst)) & CLEAR_BIT0) as u64
}

/// Jump and link through a register: `rd <- pc + 4`, then the target is
/// computed; a return must match the address popped from the shadow stack.
pub open spec fn jalr_spec(m: Machine, inst: u32) -> Option<Machine> {
    let linked = m.with_reg(rd(inst), m.pc.wrapping_add(4));
    let target = jalr_target(linked, inst);
    if is_return(inst) {
        match pop_spec(linked.stack) {
            Some((v, s)) => if v == target {
                Some(Machine { pc: target, stack: s, ..linked })
            } else {
                None
            },
            None => None,
        }
    } else {
        Some(linked.with_pc(target))
    }
}

/// Whether the branch with `funct3` `f3` is taken on operands `a` and `b`,
/// `None` for an unknown `f3`.
pub open spec fn branch_taken(f3: u32, a: u64, b: u64) -> Option<bool> {
    if f3 == BEQ {
        Some(a == b)
    } else if f3 == BNE {
        Some(a != b)
    } else if f3 == BLT {
        Some((a as i32) < (b as i32))
    } else if f3 == BGE {
        Some((a as i32) >= (b as i32))
    } else if f3 == BLTU {
        Some(a < b)
    } else if f3 == BGEU {
        Some(a >= b)
    } else {
        None
    }
}

/// A conditional branch: when taken, `pc <- pc + offset`.
pub open spec fn branch_spec(m: Machine, inst: u32) -> Option<Machine> {
    match branch_taken(funct3(inst), m.reg(rs1(inst)), m.reg(rs2(inst))) {
        Some(true) => Some(m.with_pc(pc_plus(m.pc, sext(branch_offset(inst), 12)))),
        Some(false) => Some(m),
        None => None,
    }
}

/// The number of bytes a load with `funct3` `f3` reads.
pub open spec fn load_size(f3: u32) -> int {
    if f3 == LB || f3 == LBU {
        1
    } else if f3 == LH || f3 == LHU {
        2
    } else {
        4
    }
}

/// The address of a load: `rs1 + imm`, modulo 2^32.
pub open spec fn load_address(m: Machine, inst: u32) -> u32 {
    (m.reg(rs1(inst)) as u32).wrapping_add(imm_i(inst))
}

/// A load of 1, 2 or 4 bytes, sign-extended unless unsigned. The value goes
/// to `rs1`, the register that held the address.
pub open spec fn load_spec(m: Machine, inst: u32) -> Option<Machine> {
    let f3 = funct3(inst);
    let a = load_address(m, inst) as int;
    let n = load_size(f3);
    if !(f3 == LB || f3 == LH || f3 == LW || f3 == LBU || f3 == LHU) {
        None
    } else if a + n > m.mem.len() {
        None
    } else {
        let raw = le_value(m.mem.subrange(a, a + n)) as u32;
        let v = if f3 == LB {
            sext(raw, 7)
        } else if f3 == LH {
            sext(raw, 15)
        } else {
            raw
        };
        Some(m.with_reg(rs1(inst), v as u64))
    }
}

/// The address of a store: `rs1 + imm`, modulo 2^32.
pub open spec fn store_address(m: Machine, inst: u32) -> u32 {
    (m.reg(rs1(inst)) as u32).wrapping_add(sext(store_offset(inst), 11))
}

/// A store of the low 1, 2 or 4 bytes of `rs2`. In test mode a 4-byte store
/// is a verdict and stores nothing.
pub open spec fn store_op_spec(m: Machine, inst: u32) -> Option<(Machine, Status)> {
    let f3 = funct3(inst);
    let a = store_address(m, inst) as int;
    let v = m.reg(rs2(inst));
    if f3 == SB {
        if a < m.mem.len() {
            Some((Machine { mem: m.mem.update(a, v as u8), ..m }, Status::Running))
        } else {
            None
        }
    } else if f3 == SH {
        if a + 2 <= m.mem.len() {
            Some((Machine { mem: store_spec(m.mem, a, v as u16 as u64, 2), ..m }, Status::Running))
        } else {
            None
        }
    } else if f3 == SW {
        if m.test_mode {
            Some((m, test_verdict(v as u32)))
        } else if a + 4 <= m.mem.len() {
            Some((Machine { mem: store_spec(m.mem, a, v as u32 as u64, 4), ..m }, Status::Running))
        } else {
            None
        }
    } else {
        None
    }
}

/// Arithmetic shift right: a logical shift, then sign extension from the
/// bit the sign bit moved to.
pub open spec fn sra(a: u32, sh: u32) -> u32 {
    sext(a >> sh, (31 - sh) as u32)
}

/// The result of the register-immediate operation `inst` on operand `a`.
pub open spec fn op_imm_value(inst: u32, a: u32) -> u32 {
    let f3 = funct3(inst);
    let imm = imm_i(inst);
    let sh = field(inst, 24, 20);
    if f3 == ADDI {
        a.wrapping_add(imm)
    } else if f3 == SLTI {
        if (a as i32) < (imm as i32) {
            1
        } else {
            0
        }
    } else if f3 == SLTIU {
        if a < imm {
            1
        } else {
            0
        }
    } else if f3 == XORI {
        a ^ imm
    } else if f3 == ORI {
        a | imm
    } else if f3 == ANDI {
        a & imm
    } else if f3 == SLLI {
        a << sh
    } else if field(inst, 30, 30) == 0 {
        a >> sh
    } else {
        sra(a, sh)
    }
}

/// A register-immediate operation: `rd <- rs1 op imm`.
pub open spec fn op_imm_spec(m: Machine, inst: u32) -> Machine {
    m.with_reg(rd(inst), op_imm_value(inst, m.reg(rs1(inst)) as u32) as u64)
}

/// Add, or subtract when bit 30 is set, modulo 2^32.
pub open spec fn add_sub_value(sub: bool, a: u32, b: u32) -> u32 {
    if sub {
        a.wrapping_sub(b)
    } else {
        a.wrapping_add(b)
    }
}

/// A register-register operation: only add and subtract exist.
pub open spec fn op_reg_spec(m: Machine, inst: u32) -> Option<Machine> {
    if funct3(inst) == ADD_SUB {
        let v = add_sub_value(
            field(inst, 30, 30) == 1,
            m.reg(rs1(inst)) as u32,
            m.reg(rs2(inst)) as u32,
        );
        Some(m.with_reg(rd(inst), v as u64))
    } else {
        None
    }
}

/// An environment call: the PC is saved; from user mode the machine enters
/// supervisor mode, from machine mode it records the cause and jumps to the
/// trap vector. From any other level it is an error.
pub open spec fn ecall_spec(m: Machine) -> Option<Machine> {
    let saved = m.with_csr(CSR_MEPC as int, m.pc).with_csr(CSR_SCAUSE as int, 0);
    if m.privilege == PRIV_USER {
        Some(Machine { privilege: PRIV_SUPERVISOR, ..saved })
    } else if m.privilege == PRIV_MACHINE {
        let trapped = saved.with_csr(CSR_MCAUSE as int, CAUSE_ECALL_MACHINE);
        Some(trapped.with_pc(m.csrs[CSR_MTVEC as int] as u32 as u64))
    } else {
        None
    }
}

/// The system instructions: environment call, trap return, and the atomic
/// read-modify-write of a CSR, whose old value goes to `rd`.
pub open spec fn system_spec(m: Machine, inst: u32) -> Option<Machine> {
    let f3 = funct3(inst);
    let c = field(inst, 31, 20) as int;
    let t = m.csrs[c];
    let x = m.reg(rs1(inst));
    let z = field(inst, 19, 15) as u64;
    if f3 == EXCEPT {
        if field(inst, 31, 20) == ECALL {
            ecall_spec(m)
        } else if field(inst, 31, 20) == MRET {
            Some(m.with_pc(m.csrs[CSR_MEPC as int]))
        } else {
            None
        }
    } else if f3 == CSRRW {
        Some(m.with_csr(c, x).with_reg(rd(inst), t))
    } else if f3 == CSRRS {
        Some(m.with_csr(c, t | x).with_reg(rd(inst), t))
    } else if f3 == CSRRC {
        Some(m.with_csr(c, t & !x).with_reg(rd(inst), t))
    } else if f3 == CSRRWI {
        Some(m.with_reg(rd(inst), t).with_csr(c, z))
    } else if f3 == CSRRSI {
        Some(m.with_csr(c, t | z).with_reg(rd(inst), t))
    } else if f3 == CSRRCI {
        Some(m.with_csr(c, t & !z).with_reg(rd(inst), t))
    } else {
        None
    }
}

/// A state that carries on running, or the error it stands for.
pub open spec fn running(o: Option<Machine>) -> Option<(Machine, Status)> {
    match o {
        Some(n) => Some((n, Status::Running)),
        None => None,
    }
}

/// Whether the instruction `inst` sets the PC itself, so that the default
/// advance is skipped: a jump, a taken branch, a trap return, and an
/// environment call from machine mode, which enters the trap vector.
pub open spec fn sets_pc(m: Machine, inst: u32) -> bool {
    let op = opcode(inst);
    let code = field(inst, 31, 20);
    ||| op == OP_JAL
    ||| op == OP_JALR
    ||| op == OP_BRANCH && branch_taken(funct3(inst), m.reg(rs1(inst)), m.reg(rs2(inst))) == Some(
        true,
    )
    ||| op == OP_SYSTEM && funct3(inst) == EXCEPT && (code == MRET || code == ECALL && m.privilege
        == PRIV_MACHINE)
}

/// What executing the 32-bit instruction `inst` does: the new state and
/// whether execution goes on, or `None` for an error.
pub open spec fn exec_spec(m: Machine, inst: u32) -> Option<(Machine, Status)> {
    let op = opcode(inst);
    if op == OP_LUI {
        running(Some(lui_spec(m, inst)))
    } else if op == OP_AUIPC {
        running(Some(auipc_spec(m, inst)))
    } else if op == OP_JAL {
        running(jal_spec(m, inst))
    } else if op == OP_JALR {
        running(jalr_spec(m, inst))
    } else if op == OP_BRANCH {
        running(branch_spec(m, inst))
    } else if op == OP_LOAD {
        running(load_spec(m, inst))
    } else if op == OP_STORE {
        store_op_spec(m, inst)
    } else if op == OP_IMM {
        running(Some(op_imm_spec(m, inst)))
    } else if op == OP_REG {
        running(op_reg_spec(m, inst))
    } else if op == OP_SYSTEM {
        running(system_spec(m, inst))
    } else if op == OP_FENCE {
        running(Some(m))
    } else {
        None
    }
}

/// The length in bytes of the instruction whose low bits are those of
/// `inst`: 8 for the reserved encoding `0b0111111` in bits `6:0`, 4 when
/// bits `1:0` are `0b11` and bits `6:2` are not `0b11111`, 2 otherwise.
pub open spec fn inst_length(inst: u64) -> u64 {
    if inst & 0x7f == 0b011_1111 {
        8
    } else if inst & 0b11 == 0b11 && (inst >> 2u64) & 0x1f != 0x1f {
        4
    } else {
        2
    }
}

/// What executing the instruction whose bits are `word` does: a 4-byte
/// instruction runs as it is, a 2-byte one once expanded, and an 8-byte one
/// is an error.
pub open spec fn exec_word_spec(m: Machine, word: u64) -> Option<(Machine, Status)> {
    let len = inst_length(word);
    if len == 4 {
        exec_spec(m, word as u32)
    } else if len == 2 {
        match expand(word as u32) {
            Some(inst) => exec_spec(m, inst),
            None => None,
        }
    } else {
        None
    }
}

/// Whether the instruction whose bits are `word` sets the PC itself.
pub open spec fn word_sets_pc(m: Machine, word: u64) -> bool {
    let len = inst_length(word);
    if len == 4 {
        sets_pc(m, word as u32)
    } else if len == 2 {
        match expand(word as u32) {
            Some(inst) => sets_pc(m, inst),
            None => false,
        }
    } else {
        false
    }
}

/// The address instructions are fetched from: the PC modulo 2^32.
pub open spec fn fetch_address(m: Machine) -> int {
    m.pc as u32 as int
}

/// The four bytes at the fetch address, as a little-endian word.
pub open spec fn fetched_word(m: Machine) -> u64 {
    let a = fetch_address(m);
    le_value(m.mem.subrange(a, a + 4)) as u64
}

/// One cycle: fetch four bytes at the PC and execute them. Unless the
/// instruction set the PC itself, the PC then advances by the instruction's
/// length, modulo 2^32. A fetch beyond memory is an error.
pub open spec fn step_spec(m: Machine) -> Option<(Machine, Status)> {
    if fetch_address(m) + 4 > m.mem.len() {
        None
    } else {
        let word = fetched_word(m);
        match exec_word_spec(m, word) {
            Some((n, st)) => Some(
                (
                    if !word_sets_pc(m, word) {
                        n.with_pc(pc_plus(m.pc, inst_length(word) as u32))
                    } else {
                        n
                    },
                    st,
                ),
            ),
            None => None,
        }
    }
}

/// A call (a jump-and-link to register 1) followed by the return pattern
/// resumes at the instruction after the call and leaves the shadow stack as
/// it was. If the link register is changed in between so that the return
/// goes elsewhere, the return is an error.
///
/// A call pushes its own target, so a return passes the check only when
/// that target is the return address: a jump offset of 4, from an even PC
/// below `2^32 - 4` so that the link register holds `pc + 4` exactly.
pub proof fn lemma_call_return(m: Machine, call: u32, ret: u32, link: u64)
    requires
        m.wf(),
        m.stack.len() < SHADOW_STACK_SIZE,
        opcode(call) == OP_JAL,
        rd(call) == 1,
        jal_offset(call) == 4,
        m.pc % 2 == 0,
        m.pc + 4 < 0x1_0000_0000,
        opcode(ret) == OP_JALR,
        is_return(ret),
    ensures
        exec_spec(m, call) is Some,
        exec_spec(exec_spec(m, call).unwrap().0, ret) == Some(
            (
                Machine { pc: (m.pc + 4) as u64, stack: m.stack, ..exec_spec(m, call).unwrap().0 },
                Status::Running,
            ),
        ),
        (link as u32) & CLEAR_BIT0 != m.pc + 4 ==> exec_spec(
            exec_spec(m, call).unwrap().0.with_reg(1, link),
            ret,
        ) is None,
{
    let back = (m.pc + 4) as u64;
    assert(sext(0u32, 11) == 0) by (bit_vector);
    let low = back as u32;
    assert(low & CLEAR_BIT0 == low) by (bit_vector)
        requires
            low % 2 == 0,
    ;
    let called = exec_spec(m, call).unwrap().0;
    assert(called.stack == m.stack.push(back));
    assert(called.stack.drop_last() =~= m.stack);
}

} // verus!
