//! The fetch/decode/execute engine. `Cpu` owns the program counter, the
//! privilege level and the four state containers; each instruction class
//! has a handler proved against its definition in `isa`.
use vstd::prelude::*;

pub mod compressed;
pub mod isa;
pub mod rv32;

use crate::bitutils::field;
use crate::csr::Csr;
use crate::mmu::{Mmu, Status};
use crate::register::{read_spec, write_ok, write_spec, Register};
use crate::shadowstack::{ShadowStack, SHADOW_STACK_SIZE};
use self::isa::{
    add_sub_value, branch_spec, exec_spec, exec_word_spec, fetch_address, fetched_word,
    inst_length, jal_spec, jalr_spec, load_spec, op_imm_spec, op_reg_spec, opcode, sets_pc, step_spec,
    store_op_spec, system_spec, word_sets_pc, Machine, ADDI, ADD_SUB, ANDI, BEQ, BGE, BGEU, BLT, BLTU, BNE,
    CAUSE_ECALL_MACHINE, CLEAR_BIT0, CSRRC, CSRRCI, CSRRS, CSRRSI, CSRRW, CSRRWI, CSR_MCAUSE,
    CSR_MEPC, CSR_MTVEC, CSR_SCAUSE, ECALL, EXCEPT, LB, LBU, LH, LHU, LW, MRET, OP_AUIPC,
    OP_BRANCH, OP_FENCE, OP_IMM, OP_JAL, OP_JALR, OP_LOAD, OP_LUI, OP_REG, OP_STORE, OP_SYSTEM,
    ORI, PRIV_MACHINE, PRIV_SUPERVISOR, PRIV_USER, SB, SH, SLLI, SLTI, SLTIU, SW, XLEN, XORI,
};
use self::rv32::{
    get_bits, get_bits_extended, get_funct3, get_imm_branch, get_imm_jal, get_imm_st, get_op,
    get_rd, get_rs1, get_rs2, lemma_field_bounds, sign_extend,
};

verus! {

/// The length in bytes of the instruction whose low bits are those of
/// `inst`: 8, 4 or 2.
pub fn parse_inst_length(inst: u64) -> (r: u64)
    ensures
        r == inst_length(inst),
{
    if inst & 0x7f == 0b011_1111 {
        8
    } else if inst & 0b11 == 0b11 && (inst >> 2u64) & 0x1f != 0x1f {
        4
    } else {
        2
    }
}

/// The operands of a register-register instruction: the destination, the
/// two sources, and `funct7` (bits `31:25`), whose bit 5 picks a variant.
#[derive(Clone, Copy)]
pub struct State {
    rd: usize,
    rs1: usize,
    rs2: usize,
    imm: u64,
}

impl State {
    /// The destination register.
    pub closed spec fn rd_spec(&self) -> usize {
        self.rd
    }

    /// The first source register.
    pub closed spec fn rs1_spec(&self) -> usize {
        self.rs1
    }

    /// The second source register.
    pub closed spec fn rs2_spec(&self) -> usize {
        self.rs2
    }

    /// The `funct7` field.
    pub closed spec fn imm_spec(&self) -> u64 {
        self.imm
    }

    /// Operands `rd`, `rs1`, `rs2` and `funct7` in `imm`.
    pub fn new(rd: usize, rs1: usize, rs2: usize, imm: u64) -> (r: Self)
        ensures
            r.rd_spec() == rd,
            r.rs1_spec() == rs1,
            r.rs2_spec() == rs2,
            r.imm_spec() == imm,
    {
        Self { rd, rs1, rs2, imm }
    }

    /// The destination register.
    pub fn read_rd(&self) -> (r: usize)
        ensures
            r == self.rd_spec(),
    {
        self.rd
    }

    /// The first source register.
    pub fn read_rs1(&self) -> (r: usize)
        ensures
            r == self.rs1_spec(),
    {
        self.rs1
    }

    /// The second source register.
    pub fn read_rs2(&self) -> (r: usize)
        ensures
            r == self.rs2_spec(),
    {
        self.rs2
    }

    /// The `funct7` field.
    pub fn read_rs3(&self) -> (r: u64)
        ensures
            r == self.imm_spec(),
    {
        self.imm
    }
}

/// A register-register operation: it reads two registers and writes one.
pub trait R2R {
    /// The register file after the operation on `regs`, `None` when it fails.
    spec fn result(&self, state: State, regs: Seq<u64>) -> Option<Seq<u64>>;

    /// The operation applied to a copy of `reg`, which is returned.
    fn exec_register(&self, state: State, reg: &Register) -> (r: Result<Register, String>)
        ensures
            match r {
                Ok(n) => self.result(state, reg@) == Some(n@),
                Err(_) => self.result(state, reg@) is None,
            },
    ;
}

/// Add, or subtract when bit 5 of `funct7` is set, modulo 2^32.
pub struct AddSub;

impl R2R for AddSub {
    open spec fn result(&self, state: State, regs: Seq<u64>) -> Option<Seq<u64>> {
        let a = read_spec(regs, state.rs1_spec() as int, XLEN);
        let b = read_spec(regs, state.rs2_spec() as int, XLEN);
        if a is Some && b is Some && write_ok(state.rd_spec() as int, XLEN) {
            let sub = (state.imm_spec() >> 5u64) & 1 == 1;
            let v = add_sub_value(sub, a.unwrap() as u32, b.unwrap() as u32);
            Some(write_spec(regs, state.rd_spec() as int, v as u64, XLEN))
        } else {
            None
        }
    }

    fn exec_register(&self, state: State, reg: &Register) -> (r: Result<Register, String>) {
        let mut r = *reg;
        #[verifier::truncate]
        let a = reg.read(state.rs1, XLEN)? as u32;
        #[verifier::truncate]
        let b = reg.read(state.rs2, XLEN)? as u32;
        let v = if (state.imm >> 5u64) & 1 == 1 {
            a.wrapping_sub(b)
        } else {
            a.wrapping_add(b)
        };
        r.write(state.rd, v as u64, XLEN)?;
        Ok(r)
    }
}

/// The processor: program counter, privilege level, and the register file,
/// CSR bank, memory and shadow stack it owns.
pub struct Cpu {
    pc: u64,
    csr: Csr,
    register: Register,
    privilege: u8,
    mmu: Mmu,
    sstack: ShadowStack,
}

impl View for Cpu {
    type V = Machine;

    closed spec fn view(&self) -> Machine {
        Machine {
            pc: self.pc,
            regs: self.register@,
            csrs: self.csr@,
            privilege: self.privilege,
            mem: self.mmu@,
            test_mode: self.mmu.is_test_mode(),
            stack: self.sstack@,
        }
    }
}

impl Cpu {
    /// The shadow stack's pointer is within its array.
    pub closed spec fn stack_wf(&self) -> bool {
        self.sstack.wf()
    }

    /// The containers have their shapes.
    pub open spec fn wf(&self) -> bool {
        self@.wf() && self.stack_wf()
    }

    /// A processor at `pc` in privilege level `privilege`, over the given
    /// containers.
    pub fn new(
        pc: u64,
        csr: Csr,
        register: Register,
        privilege: u8,
        mmu: Mmu,
        sstack: ShadowStack,
    ) -> (r: Cpu)
        requires
            sstack.wf(),
        ensures
            r.wf(),
            r@ == (Machine {
                pc,
                regs: register@,
                csrs: csr@,
                privilege,
                mem: mmu@,
                test_mode: mmu.is_test_mode(),
                stack: sstack@,
            }),
    {
        proof {
            register.lemma_len();
            csr.lemma_len();
            sstack.lemma_len();
        }
        Cpu { pc, csr, register, privilege, mmu, sstack }
    }

    /// The program counter.
    pub fn pc(&self) -> (r: u64)
        ensures
            r == self@.pc,
    {
        self.pc
    }

    /// The privilege level.
    pub fn privilege(&self) -> (r: u8)
        ensures
            r == self@.privilege,
    {
        self.privilege
    }

    /// The register file.
    pub fn register(&self) -> (r: &Register)
        ensures
            r@ == self@.regs,
    {
        &self.register
    }

    /// The CSR bank.
    pub fn csr(&self) -> (r: &Csr)
        ensures
            r@ == self@.csrs,
    {
        &self.csr
    }

    /// The memory.
    pub fn mmu(&self) -> (r: &Mmu)
        ensures
            r@ == self@.mem,
            r.is_test_mode() == self@.test_mode,
    {
        &self.mmu
    }

    /// The shadow stack.
    pub fn sstack(&self) -> (r: &ShadowStack)
        ensures
            r@ == self@.stack,
    {
        &self.sstack
    }

    /// Jump and link. A call onto a full shadow stack fails before anything
    /// changes.
    fn exec_jal(&mut self, inst: u32) -> (r: Result<(), String>)
        requires
            old(self).wf(),
        ensures
            final(self).wf(),
            match r {
                Ok(_) => jal_spec(old(self)@, inst) == Some(final(self)@),
                Err(_) => jal_spec(old(self)@, inst) is None && final(self)@ == old(self)@,
            },
    {
        let rd = get_rd(inst);
        if rd == 1 && self.sstack.get_sp() >= SHADOW_STACK_SIZE {
            return Err("Error, shadowstack is full".to_string());
        }
        self.register.write(rd, self.pc.wrapping_add(4), XLEN)?;
        self.pc = (self.pc as u32).wrapping_add(get_imm_jal(inst)) as u64;
        if rd == 1 {
            // a call: its target is remembered until the matching return
            self.sstack.push(self.pc)?;
        }
        Ok(())
    }

    /// Jump and link through a register; the return pattern is checked
    /// against the shadow stack before anything changes.
    fn exec_jalr(&mut self, inst: u32) -> (r: Result<(), String>)
        requires
            old(self).wf(),
        ensures
            final(self).wf(),
            match r {
                Ok(_) => jalr_spec(old(self)@, inst) == Some(final(self)@),
                Err(_) => jalr_spec(old(self)@, inst) is None && final(self)@ == old(self)@,
            },
    {
        let rd = get_rd(inst);
        let rs1 = get_rs1(inst);
        self.register.write(rd, self.pc.wrapping_add(4), XLEN)?;
        #[verifier::truncate]
        let base = self.register.read(rs1, XLEN)? as u32;
        let target = (base.wrapping_add(get_bits_extended(inst, 31, 20)) & CLEAR_BIT0) as u64;
        if rd == 0 && rs1 == 1 && get_bits(inst, 31, 20) == 0 {
            // a return: it must go back where the matching call went
            match self.sstack.top() {
                Some(expected) => {
                    if expected != target {
                        return Err("@@@ shadow stack mismatch @@@".to_string());
                    }
                },
                None => {
                    return Err(
                        "Error, shadowstack stack pointer will be under zero".to_string(),
                    );
                },
            }
            self.sstack.pop()?;
        }
        self.pc = target;
        Ok(())
    }

    /// The conditional branches; reports whether the branch was taken.
    fn exec_branch(&mut self, inst: u32) -> (r: Result<bool, String>)
        requires
            old(self).wf(),
            opcode(inst) == OP_BRANCH,
        ensures
            final(self).wf(),
            match r {
                Ok(taken) => branch_spec(old(self)@, inst) == Some(final(self)@) && taken
                    == sets_pc(old(self)@, inst),
                Err(_) => branch_spec(old(self)@, inst) is None && final(self)@ == old(self)@,
            },
    {
        let a = self.register.read(get_rs1(inst), XLEN)?;
        let b = self.register.read(get_rs2(inst), XLEN)?;
        let taken = match get_funct3(inst) {
            BEQ => a == b,
            BNE => a != b,
            BLT => (a as i32) < (b as i32),
            BGE => (a as i32) >= (b as i32),
            BLTU => a < b,
            BGEU => a >= b,
            _ => {
                return Err("No inst on branch".to_string());
            },
        };
        if taken {
            self.pc = (self.pc as u32).wrapping_add(sign_extend(get_imm_branch(inst), 12)) as u64;
        }
        Ok(taken)
    }

    /// The loads. The value read goes to `rs1`, the register that held the
    /// address.
    fn exec_load(&mut self, inst: u32) -> (r: Result<(), String>)
        requires
            old(self).wf(),
        ensures
            final(self).wf(),
            match r {
                Ok(_) => load_spec(old(self)@, inst) == Some(final(self)@),
                Err(_) => load_spec(old(self)@, inst) is None && final(self)@ == old(self)@,
            },
    {
        let f3 = get_funct3(inst);
        let n: u64 = match f3 {
            LB | LBU => 1,
            LH | LHU => 2,
            LW => 4,
            _ => {
                return Err("No inst on load".to_string());
            },
        };
        let rs1 = get_rs1(inst);
        #[verifier::truncate]
        let base = self.register.read(rs1, XLEN)? as u32;
        let address = base.wrapping_add(get_bits_extended(inst, 31, 20)) as u64;
        if address + n > self.mmu.size() as u64 {
            return Err("load outside memory".to_string());
        }
        #[verifier::truncate]
        let raw = self.mmu.read_nbytes(address, n) as u32;
        let data = match f3 {
            LB => sign_extend(raw, 7),
            LH => sign_extend(raw, 15),
            _ => raw,
        };
        self.register.write(rs1, data as u64, XLEN)
    }

    /// The stores. In test mode a 4-byte store reports the test verdict.
    fn exec_store(&mut self, inst: u32) -> (r: Result<Status, String>)
        requires
            old(self).wf(),
        ensures
            final(self).wf(),
            match r {
                Ok(st) => store_op_spec(old(self)@, inst) == Some((final(self)@, st)),
                Err(_) => store_op_spec(old(self)@, inst) is None && final(self)@ == old(self)@,
            },
    {
        #[verifier::truncate]
        let base = self.register.read(get_rs1(inst), XLEN)? as u32;
        let value = self.register.read(get_rs2(inst), XLEN)?;
        let address = base.wrapping_add(sign_extend(get_imm_st(inst), 11)) as u64;
        let size = self.mmu.size() as u64;
        match get_funct3(inst) {
            SB => {
                if address >= size {
                    return Err("store outside memory".to_string());
                }
                self.mmu.write_byte(address, value as u8);
                Ok(Status::Running)
            },
            SH => {
                if address + 2 > size {
                    return Err("store outside memory".to_string());
                }
                self.mmu.write_2byte(address, value as u16);
                Ok(Status::Running)
            },
            SW => {
                if !self.mmu.test_mode() && address + 4 > size {
                    return Err("store outside memory".to_string());
                }
                Ok(self.mmu.write_4byte(address, value as u32))
            },
            _ => Err("No inst on store".to_string()),
        }
    }

    /// The register-immediate operations.
    fn exec_op_imm(&mut self, inst: u32) -> (r: Result<(), String>)
        requires
            old(self).wf(),
        ensures
            final(self).wf(),
            r is Ok,
            final(self)@ == op_imm_spec(old(self)@, inst),
    {
        #[verifier::truncate]
        let a = self.register.read(get_rs1(inst), XLEN)? as u32;
        let imm = get_bits_extended(inst, 31, 20);
        let sh = get_bits(inst, 24, 20);
        proof {
            lemma_field_bounds(inst);
        }
        let v = match get_funct3(inst) {
            ADDI => a.wrapping_add(imm),
            SLTI => if (a as i32) < (imm as i32) {
                1
            } else {
                0
            },
            SLTIU => if a < imm {
                1
            } else {
                0
            },
            XORI => a ^ imm,
            ORI => a | imm,
            ANDI => a & imm,
            SLLI => a << sh,
            _ => if get_bits(inst, 30, 30) == 0 {
                a >> sh
            } else {
                // arithmetic: the sign bit, now at bit 31 - sh, is extended
                sign_extend(a >> sh, 31 - sh)
            },
        };
        self.register.write(get_rd(inst), v as u64, XLEN)
    }

    /// The register-register operations: add and subtract.
    fn exec_op_reg(&mut self, inst: u32) -> (r: Result<(), String>)
        requires
            old(self).wf(),
        ensures
            final(self).wf(),
            match r {
                Ok(_) => op_reg_spec(old(self)@, inst) == Some(final(self)@),
                Err(_) => op_reg_spec(old(self)@, inst) is None && final(self)@ == old(self)@,
            },
    {
        if get_funct3(inst) != ADD_SUB {
            return Err("No inst on arithmatic register".to_string());
        }
        let funct7 = get_bits(inst, 31, 25);
        assert((funct7 as u64 >> 5u64) & 1 == 1 <==> field(inst, 30, 30) == 1) by (bit_vector)
            requires
                funct7 == field(inst, 31, 25),
        ;
        let state = State::new(get_rd(inst), get_rs1(inst), get_rs2(inst), funct7 as u64);
        let next = AddSub.exec_register(state, &self.register)?;
        self.register = next;
        Ok(())
    }

    /// Environment call, trap return, and the CSR read-modify-writes;
    /// reports whether the PC was set.
    fn exec_system(&mut self, inst: u32) -> (r: Result<bool, String>)
        requires
            old(self).wf(),
            opcode(inst) == OP_SYSTEM,
        ensures
            final(self).wf(),
            match r {
                Ok(jumped) => system_spec(old(self)@, inst) == Some(final(self)@) && jumped
                    == sets_pc(old(self)@, inst),
                Err(_) => system_spec(old(self)@, inst) is None && final(self)@ == old(self)@,
            },
    {
        proof {
            lemma_field_bounds(inst);
        }
        let f3 = get_funct3(inst);
        let code = get_bits(inst, 31, 20);
        let c = code as usize;
        if f3 == EXCEPT {
            let mut jumped = false;
            if code == ECALL {
                if self.privilege != PRIV_USER && self.privilege != PRIV_MACHINE {
                    return Err("Unknown privilege level".to_string());
                }
                self.csr.write(CSR_MEPC, self.pc)?;
                self.csr.write(CSR_SCAUSE, 0)?;
                if self.privilege == PRIV_USER {
                    self.privilege = PRIV_SUPERVISOR;
                } else {
                    self.csr.write(CSR_MCAUSE, CAUSE_ECALL_MACHINE)?;
                    #[verifier::truncate]
                    let vector = self.csr.read(CSR_MTVEC)? as u32;
                    self.pc = vector as u64;
                    jumped = true;
                }
            } else if code == MRET {
                self.pc = self.csr.read(CSR_MEPC)?;
                jumped = true;
            } else {
                return Err("No inst on CSR EXCEPTION".to_string());
            }
            return Ok(jumped);
        }
        let rd = get_rd(inst);
        let t = self.csr.read(c)?;
        let x = self.register.read(get_rs1(inst), XLEN)?;
        let z = get_bits(inst, 19, 15) as u64;
        match f3 {
            CSRRW => {
                self.csr.write(c, x)?;
                self.register.write(rd, t, XLEN)?;
            },
            CSRRS => {
                self.csr.write(c, t | x)?;
                self.register.write(rd, t, XLEN)?;
            },
            CSRRC => {
                self.csr.write(c, t & !x)?;
                self.register.write(rd, t, XLEN)?;
            },
            CSRRWI => {
                self.register.write(rd, t, XLEN)?;
                self.csr.write(c, z)?;
            },
            CSRRSI => {
                self.csr.write(c, t | z)?;
                self.register.write(rd, t, XLEN)?;
            },
            CSRRCI => {
                self.csr.write(c, t & !z)?;
                self.register.write(rd, t, XLEN)?;
            },
            _ => {
                return Err("No inst on CSR".to_string());
            },
        }
        Ok(false)
    }

    /// Executes the 32-bit instruction `inst`, and reports whether it set
    /// the PC itself. An error leaves the processor as it was.
    fn execute_inst(&mut self, inst: u32) -> (r: Result<(Status, bool), String>)
        requires
            old(self).wf(),
        ensures
            final(self).wf(),
            match r {
                Ok((st, jumped)) => exec_spec(old(self)@, inst) == Some((final(self)@, st))
                    && jumped == sets_pc(old(self)@, inst),
                Err(_) => exec_spec(old(self)@, inst) is None && final(self)@ == old(self)@,
            },
    {
        let mut jumped = false;
        match get_op(inst) {
            OP_LUI => {
                let imm = get_bits_extended(inst, 31, 12);
                self.register.write(get_rd(inst), (imm << 12u32) as u64, XLEN)?;
            },
            OP_AUIPC => {
                let imm = get_bits_extended(inst, 31, 12);
                self.register.write(get_rd(inst), self.pc.wrapping_add(imm as u64), XLEN)?;
            },
            OP_JAL => {
                self.exec_jal(inst)?;
                jumped = true;
            },
            OP_JALR => {
                self.exec_jalr(inst)?;
                jumped = true;
            },
            OP_BRANCH => {
                jumped = self.exec_branch(inst)?;
            },
            OP_LOAD => self.exec_load(inst)?,
            OP_STORE => {
                let st = self.exec_store(inst)?;
                return Ok((st, false));
            },
            OP_IMM => self.exec_op_imm(inst)?,
            OP_REG => self.exec_op_reg(inst)?,
            OP_SYSTEM => {
                jumped = self.exec_system(inst)?;
            },
            OP_FENCE => {},
            _ => {
                return Err("No instruction".to_string());
            },
        }
        Ok((Status::Running, jumped))
    }

    /// Executes the 32-bit instruction `inst`. An error leaves the processor
    /// as it was.
    pub fn exec_rv32(&mut self, inst: u32) -> (r: Result<Status, String>)
        requires
            old(self).wf(),
        ensures
            final(self).wf(),
            match r {
                Ok(st) => exec_spec(old(self)@, inst) == Some((final(self)@, st)),
                Err(_) => exec_spec(old(self)@, inst) is None && final(self)@ == old(self)@,
            },
    {
        let (st, _) = self.execute_inst(inst)?;
        Ok(st)
    }

    /// The instruction word at the PC, modulo 2^32, and its length.
    fn fetch(&self) -> (r: Result<(u64, u64), String>)
        ensures
            match r {
                Ok((inst, len)) => fetch_address(self@) + 4 <= self@.mem.len() && inst
                    == fetched_word(self@) && len == inst_length(inst),
                Err(_) => fetch_address(self@) + 4 > self@.mem.len(),
            },
    {
        #[verifier::truncate]
        let address = self.pc as u32 as u64;
        if address + 4 > self.mmu.size() as u64 {
            return Err("fetch outside memory".to_string());
        }
        let inst = self.mmu.read_nbytes(address, 4);
        Ok((inst, parse_inst_length(inst)))
    }

    /// Executes the instruction whose bits are `inst`, and reports whether
    /// it set the PC itself.
    fn execute_word(&mut self, inst: u64) -> (r: Result<(Status, bool), String>)
        requires
            old(self).wf(),
        ensures
            final(self).wf(),
            match r {
                Ok((st, jumped)) => exec_word_spec(old(self)@, inst) == Some((final(self)@, st))
                    && jumped == word_sets_pc(old(self)@, inst),
                Err(_) => exec_word_spec(old(self)@, inst) is None && final(self)@ == old(self)@,
            },
    {
        #[verifier::truncate]
        let word = inst as u32;
        match parse_inst_length(inst) {
            2 => {
                let expanded = Cpu::uncompress(word)?;
                self.execute_inst(expanded)
            },
            4 => self.execute_inst(word),
            _ => Err("Not implemented rv64".to_string()),
        }
    }

    /// Executes the instruction whose bits are `inst`: a compressed one is
    /// expanded first; the 64-bit class is not implemented. An error leaves
    /// the processor as it was.
    pub fn exec(&mut self, inst: u64) -> (r: Result<Status, String>)
        requires
            old(self).wf(),
        ensures
            final(self).wf(),
            match r {
                Ok(st) => exec_word_spec(old(self)@, inst) == Some((final(self)@, st)),
                Err(_) => exec_word_spec(old(self)@, inst) is None && final(self)@ == old(self)@,
            },
    {
        let (st, _) = self.execute_word(inst)?;
        Ok(st)
    }

    /// One fetch/execute cycle. Unless the instruction set the PC itself
    /// (a jump, a taken branch, a trap), the PC advances by the instruction's
    /// length. An error leaves the processor as it was.
    pub fn step(&mut self) -> (r: Result<Status, String>)
        requires
            old(self).wf(),
        ensures
            final(self).wf(),
            match r {
                Ok(st) => step_spec(old(self)@) == Some((final(self)@, st)),
                Err(_) => step_spec(old(self)@) is None && final(self)@ == old(self)@,
            },
    {
        let (inst, len) = self.fetch()?;
        let (status, jumped) = self.execute_word(inst)?;
        if !jumped {
            self.pc = (self.pc as u32).wrapping_add(len as u32) as u64;
        }
        Ok(status)
    }
}

} // verus!
