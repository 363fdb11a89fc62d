//! Expansion of the supported 16-bit instructions into their 32-bit forms,
//! assembled bit group by bit group with `Bits`.
use vstd::arithmetic::power2::{lemma2_to64, pow2};
use vstd::prelude::*;

use crate::bitutils::{field, field64, sext, Bits};
use crate::cpu::isa::{funct3, imm_i, opcode, rd, rs1, ADD_SUB, LW, OP_IMM, OP_JAL, OP_LOAD, OP_REG};
use crate::cpu::rv32::jal_offset;
use crate::cpu::rv32::get_bits;
use crate::cpu::Cpu;

verus! {

/// `funct3` (bits `15:13`) of the quadrant-2 compressed instructions.
pub const C_SLLI: u32 = 0b000;
pub const C_JAL: u32 = 0b001;
pub const C_LWSP: u32 = 0b010;
pub const C_LDSP: u32 = 0b011;
pub const C_MV: u32 = 0b100;

/// `hi` followed by the `w` bits of `lo`.
pub open spec fn cat(hi: nat, lo: nat, w: nat) -> nat {
    hi * pow2(w) + lo
}

/// Bits `lsb..=msb` of a compressed instruction.
pub open spec fn cf(inst: u32, msb: u32, lsb: u32) -> nat {
    field(inst, msb, lsb) as nat
}

/// Shift left immediate: `slli rd, rd, shamt`, `shamt` being `{12, 6:2}`.
pub open spec fn c_slli_word(inst: u32) -> nat {
    let rd = cf(inst, 11, 7);
    let shamt = cat(cf(inst, 12, 12), cf(inst, 6, 2), 5);
    cat(cat(cat(cat(cat(shamt, rd, 5), 0b001, 3), rd, 5), OP_IMM as nat, 5), 0b11, 2)
}

/// The offset of a compressed jump: bits `{12, 8, 10:9, 6, 7, 2, 11, 5:3}`
/// followed by a zero bit, sign-extended from bit 11.
pub open spec fn c_jal_offset(inst: u32) -> u64 {
    let raw = cat(
        cat(
            cat(
                cat(
                    cat(cat(cat(cf(inst, 12, 12), cf(inst, 8, 8), 1), cf(inst, 10, 9), 2), cf(inst, 6, 6), 1),
                    cf(inst, 7, 7),
                    1,
                ),
                cf(inst, 2, 2),
                1,
            ),
            cf(inst, 11, 11),
            1,
        ),
        cf(inst, 5, 3),
        3,
    );
    sext(cat(raw, 0, 1) as u32, 11) as u64
}

/// Jump and link to register 1, the offset placed in the jump's immediate
/// fields `{20, 10:1, 11, 19:12}`.
pub open spec fn c_jal_word(inst: u32) -> nat {
    let o = c_jal_offset(inst);
    let f = |msb: u64, lsb: u64| field64(o, msb, lsb) as nat;
    cat(cat(cat(cat(cat(cat(f(20, 20), f(10, 1), 10), f(11, 11), 1), f(19, 12), 8), 1, 5), OP_JAL as nat, 5), 0b11, 2)
}

/// Load word from the stack pointer: `lw rd, imm(x2)`, `imm` being
/// `{3:2, 12, 6:4}` followed by two zero bits, zero-extended.
pub open spec fn c_lwsp_word(inst: u32) -> nat {
    let imm = cat(cat(cat(cf(inst, 3, 2), cf(inst, 12, 12), 1), cf(inst, 6, 4), 3), 0, 2);
    cat(cat(cat(cat(cat(imm, 2, 5), 2, 3), cf(inst, 11, 7), 5), OP_LOAD as nat, 5), 0b11, 2)
}

/// Register move: `add rd, x0, rs2`.
pub open spec fn c_mv_word(inst: u32) -> nat {
    cat(cat(cat(cat(cat(cf(inst, 6, 2), 0, 5), ADD_SUB as nat, 3), cf(inst, 11, 7), 5), OP_REG as nat, 5), 0b11, 2)
}

/// The 32-bit form of the compressed instruction `inst`, `None` for one
/// that has none here.
pub open spec fn expand(inst: u32) -> Option<u32> {
    let f3 = field(inst, 15, 13);
    if field(inst, 1, 0) != 2 {
        None
    } else if f3 == C_SLLI {
        Some(c_slli_word(inst) as u32)
    } else if f3 == C_JAL {
        Some(c_jal_word(inst) as u32)
    } else if f3 == C_LWSP {
        Some(c_lwsp_word(inst) as u32)
    } else if f3 == C_MV && field(inst, 12, 12) == 0 && field(inst, 6, 2) != 0 {
        Some(c_mv_word(inst) as u32)
    } else {
        None
    }
}

/// The offset bits `{12, 8, 10:9, 6, 7, 2, 11, 5:3}` of a compressed jump,
/// followed by a zero bit: a 12-bit number.
pub open spec fn c_jal_raw(inst: u32) -> u32 {
    (field(inst, 12, 12) << 11) | (field(inst, 8, 8) << 10) | (field(inst, 10, 9) << 8) | (field(
        inst,
        6,
        6,
    ) << 7) | (field(inst, 7, 7) << 6) | (field(inst, 2, 2) << 5) | (field(inst, 11, 11) << 4) | (
    field(inst, 5, 3) << 1)
}

/// The expanded compressed jump is `jal x1` whose offset is the compressed
/// offset sign-extended from bit 11.
pub proof fn lemma_c_jal_is_call(inst: u32)
    ensures
        opcode(c_jal_word(inst) as u32) == OP_JAL,
        field(c_jal_word(inst) as u32, 1, 0) == 0b11,
        rd(c_jal_word(inst) as u32) == 1,
        jal_offset(c_jal_word(inst) as u32) == sext(c_jal_raw(inst), 11),
{
    lemma2_to64();
    let (a, b, c, d, e, f, g, h) = (
        field(inst, 12, 12),
        field(inst, 8, 8),
        field(inst, 10, 9),
        field(inst, 6, 6),
        field(inst, 7, 7),
        field(inst, 2, 2),
        field(inst, 11, 11),
        field(inst, 5, 3),
    );
    assert(a < 2 && b < 2 && c < 4 && d < 2 && e < 2 && f < 2 && g < 2 && h < 8) by (bit_vector)
        requires
            a == field(inst, 12, 12),
            b == field(inst, 8, 8),
            c == field(inst, 10, 9),
            d == field(inst, 6, 6),
            e == field(inst, 7, 7),
            f == field(inst, 2, 2),
            g == field(inst, 11, 11),
            h == field(inst, 5, 3),
    ;
    let raw = (a * 2048 + b * 1024 + c * 256 + d * 128 + e * 64 + f * 32 + g * 16 + h * 2) as u32;
    assert(raw == c_jal_raw(inst)) by (bit_vector)
        requires
            a == field(inst, 12, 12),
            b == field(inst, 8, 8),
            c == field(inst, 10, 9),
            d == field(inst, 6, 6),
            e == field(inst, 7, 7),
            f == field(inst, 2, 2),
            g == field(inst, 11, 11),
            h == field(inst, 5, 3),
            raw == (a * 2048 + b * 1024 + c * 256 + d * 128 + e * 64 + f * 32 + g * 16 + h * 2) as u32,
    ;
    let o = c_jal_offset(inst);
    assert(o == sext(raw, 11) as u64);
    let word = c_jal_word(inst);
    assert(word == (field64(o, 20, 20) * 0x8000_0000 + field64(o, 10, 1) * 0x20_0000 + field64(o, 11, 11) * 0x10_0000
        + field64(o, 19, 12) * 0x1000 + 0xef));
    assert((field64(o, 20, 20) * 0x8000_0000 + field64(o, 10, 1) * 0x20_0000 + field64(o, 11, 11) * 0x10_0000
        + field64(o, 19, 12) * 0x1000 + 0xef) < 0x1_0000_0000 && opcode((field64(o, 20, 20) * 0x8000_0000 + field64(o, 10, 1) * 0x20_0000 + field64(o, 11, 11) * 0x10_0000
        + field64(o, 19, 12) * 0x1000 + 0xef) as u32) == OP_JAL && field((field64(o, 20, 20) * 0x8000_0000 + field64(o, 10, 1) * 0x20_0000 + field64(o, 11, 11) * 0x10_0000
        + field64(o, 19, 12) * 0x1000 + 0xef) as u32, 1, 0) == 0b11
        && rd((field64(o, 20, 20) * 0x8000_0000 + field64(o, 10, 1) * 0x20_0000 + field64(o, 11, 11) * 0x10_0000
        + field64(o, 19, 12) * 0x1000 + 0xef) as u32) == 1 && jal_offset((field64(o, 20, 20) * 0x8000_0000 + field64(o, 10, 1) * 0x20_0000 + field64(o, 11, 11) * 0x10_0000
        + field64(o, 19, 12) * 0x1000 + 0xef) as u32) == sext(raw, 11)) by (bit_vector)
        requires
            raw < 4096,
            raw % 2 == 0,
            o == sext(raw, 11) as u64,
    ;
}

/// The offset of a compressed stack load: bits `{3:2, 12, 6:4}` followed
/// by two zero bits, an 8-bit number.
pub open spec fn c_lwsp_offset(inst: u32) -> u32 {
    (field(inst, 3, 2) << 6) | (field(inst, 12, 12) << 5) | (field(inst, 6, 4) << 2)
}

/// The expanded compressed stack load is `lw rd, offset(x2)` with the
/// offset zero-extended.
pub proof fn lemma_c_lwsp_is_load(inst: u32)
    ensures
        opcode(c_lwsp_word(inst) as u32) == OP_LOAD,
        field(c_lwsp_word(inst) as u32, 1, 0) == 0b11,
        funct3(c_lwsp_word(inst) as u32) == LW,
        rs1(c_lwsp_word(inst) as u32) == 2,
        rd(c_lwsp_word(inst) as u32) == field(inst, 11, 7),
        imm_i(c_lwsp_word(inst) as u32) == c_lwsp_offset(inst),
{
    lemma2_to64();
    let (a, b, c, r) = (field(inst, 3, 2), field(inst, 12, 12), field(inst, 6, 4), field(inst, 11, 7));
    assert(a < 4 && b < 2 && c < 8 && r < 32) by (bit_vector)
        requires
            a == field(inst, 3, 2),
            b == field(inst, 12, 12),
            c == field(inst, 6, 4),
            r == field(inst, 11, 7),
    ;
    let word = c_lwsp_word(inst);
    assert(word == ((a * 64 + b * 32 + c * 4) * 0x10_0000 + 0x1_2000 + r * 0x80 + 3));
    assert(((a * 64 + b * 32 + c * 4) * 0x10_0000 + 0x1_2000 + r * 0x80 + 3) < 0x1_0000_0000 && opcode(((a * 64 + b * 32 + c * 4) * 0x10_0000 + 0x1_2000 + r * 0x80 + 3) as u32) == OP_LOAD && field(((a * 64 + b * 32 + c * 4) * 0x10_0000 + 0x1_2000 + r * 0x80 + 3) as u32, 1, 0)
        == 0b11 && funct3(((a * 64 + b * 32 + c * 4) * 0x10_0000 + 0x1_2000 + r * 0x80 + 3) as u32) == LW && rs1(((a * 64 + b * 32 + c * 4) * 0x10_0000 + 0x1_2000 + r * 0x80 + 3) as u32) == 2 && rd(((a * 64 + b * 32 + c * 4) * 0x10_0000 + 0x1_2000 + r * 0x80 + 3) as u32) == r
        && imm_i(((a * 64 + b * 32 + c * 4) * 0x10_0000 + 0x1_2000 + r * 0x80 + 3) as u32) == c_lwsp_offset(inst)) by (bit_vector)
        requires
            a == field(inst, 3, 2),
            b == field(inst, 12, 12),
            c == field(inst, 6, 4),
            r == field(inst, 11, 7),
    ;
}

impl Cpu {
    /// The 32-bit form of a compressed instruction. Quadrant 2 shift-left,
    /// jump-and-link, load-word-from-stack and register-move expand; the
    /// jump through a register, the 64-bit load and every other encoding
    /// are errors.
    pub fn uncompress(inst: u32) -> (r: Result<u32, String>)
        ensures
            match r {
                Ok(w) => expand(inst) == Some(w),
                Err(_) => expand(inst) is None,
            },
    {
        proof {
            lemma2_to64();
        }
        if get_bits(inst, 1, 0) != 2 {
            return Err("uncompress error".to_string());
        }
        let f3 = get_bits(inst, 15, 13);
        if f3 == C_SLLI {
            let rd = Bits::cut_new(inst, 11, 7);
            let mut hi = Bits::cut_new(inst, 12, 12);
            let shamt = hi.shiftadd(Bits::cut_new(inst, 6, 2));
            let mut acc = Bits::blank();
            acc = acc.shiftadd(shamt);
            acc = acc.shiftadd(rd);
            acc = acc.shiftadd(Bits::new(0b001, 3));
            acc = acc.shiftadd(rd);
            acc = acc.shiftadd(Bits::new(OP_IMM as u64, 5));
            acc = acc.shiftadd(Bits::new(0b11, 2));
            Ok(acc.to_u32())
        } else if f3 == C_JAL {
            let mut off = Bits::blank();
            off = off.shiftadd(Bits::cut_new(inst, 12, 12));
            off = off.shiftadd(Bits::cut_new(inst, 8, 8));
            off = off.shiftadd(Bits::cut_new(inst, 10, 9));
            off = off.shiftadd(Bits::cut_new(inst, 6, 6));
            off = off.shiftadd(Bits::cut_new(inst, 7, 7));
            off = off.shiftadd(Bits::cut_new(inst, 2, 2));
            off = off.shiftadd(Bits::cut_new(inst, 11, 11));
            off = off.shiftadd(Bits::cut_new(inst, 5, 3));
            off = off.shiftadd(Bits::new(0, 1));
            let imm = Bits::new(off.extend() as u64, 32);
            let mut acc = Bits::blank();
            acc = acc.shiftadd(imm.cut(20, 20));
            acc = acc.shiftadd(imm.cut(10, 1));
            acc = acc.shiftadd(imm.cut(11, 11));
            acc = acc.shiftadd(imm.cut(19, 12));
            acc = acc.shiftadd(Bits::new(1, 5));
            acc = acc.shiftadd(Bits::new(OP_JAL as u64, 5));
            acc = acc.shiftadd(Bits::new(0b11, 2));
            Ok(acc.to_u32())
        } else if f3 == C_LWSP {
            let mut imm = Bits::blank();
            imm = imm.shiftadd(Bits::cut_new(inst, 3, 2));
            imm = imm.shiftadd(Bits::cut_new(inst, 12, 12));
            imm = imm.shiftadd(Bits::cut_new(inst, 6, 4));
            imm = imm.shiftadd(Bits::new(0, 2));
            let mut acc = Bits::blank();
            acc = acc.shiftadd(imm);
            acc = acc.shiftadd(Bits::new(2, 5));
            acc = acc.shiftadd(Bits::new(2, 3));
            acc = acc.shiftadd(Bits::cut_new(inst, 11, 7));
            acc = acc.shiftadd(Bits::new(OP_LOAD as u64, 5));
            acc = acc.shiftadd(Bits::new(0b11, 2));
            Ok(acc.to_u32())
        } else if f3 == C_MV {
            if get_bits(inst, 12, 12) != 0 {
                return Err("No such compressed op".to_string());
            }
            if get_bits(inst, 6, 2) == 0 {
                return Err("C.JR is not implemented".to_string());
            }
            let mut acc = Bits::blank();
            acc = acc.shiftadd(Bits::cut_new(inst, 6, 2));
            acc = acc.shiftadd(Bits::new(0, 5));
            acc = acc.shiftadd(Bits::new(ADD_SUB as u64, 3));
            acc = acc.shiftadd(Bits::cut_new(inst, 11, 7));
            acc = acc.shiftadd(Bits::new(OP_REG as u64, 5));
            acc = acc.shiftadd(Bits::new(0b11, 2));
            Ok(acc.to_u32())
        } else if f3 == C_LDSP {
            Err("C.LDSP, RV64C is not implemented".to_string())
        } else {
            Err("uncompress error".to_string())
        }
    }
}

} // verus!
