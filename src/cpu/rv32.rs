//! Field decoders of 32-bit instruction words.
use vstd::prelude::*;

use crate::bitutils::{field, field64, mask_of, sext};

verus! {

/// The immediate of a jump-and-link: bits `{31, 19:12, 20, 30:21}` placed at
/// offsets 20, 12, 11 and 1, with a zero bit 0, sign-extended from bit 20.
pub open spec fn jal_offset(inst: u32) -> u32 {
    sext(
        (field(inst, 31, 31) << 20) | (field(inst, 19, 12) << 12) | (field(inst, 20, 20) << 11) | (
        field(inst, 30, 21) << 1),
        20,
    )
}

/// The 13-bit offset of a branch: bits `{31, 7, 30:25, 11:8}` placed at
/// offsets 12, 11, 5 and 1, with a zero bit 0 (not sign-extended).
pub open spec fn branch_offset(inst: u32) -> u32 {
    (field(inst, 31, 31) << 12) | (field(inst, 7, 7) << 11) | (field(inst, 30, 25) << 5) | (field(
        inst,
        11,
        8,
    ) << 1)
}

/// The 12-bit offset of a store: bits `{31:25, 11:7}` (not sign-extended).
pub open spec fn store_offset(inst: u32) -> u32 {
    (field(inst, 31, 25) << 5) | field(inst, 11, 7)
}

/// Every field a decoder hands out fits its width.
pub proof fn lemma_field_bounds(inst: u32)
    ensures
        field(inst, 6, 2) < 32,
        field(inst, 14, 12) < 8,
        field(inst, 11, 7) < 32,
        field(inst, 19, 15) < 32,
        field(inst, 24, 20) < 32,
        field(inst, 31, 20) < 4096,
        field(inst, 31, 25) < 128,
        field(inst, 30, 30) < 2,
        store_offset(inst) < 4096,
        branch_offset(inst) < 8192,
{
    assert(field(inst, 6, 2) < 32 && field(inst, 14, 12) < 8 && field(inst, 11, 7) < 32 && field(
        inst,
        19,
        15,
    ) < 32 && field(inst, 24, 20) < 32 && field(inst, 31, 20) < 4096 && field(inst, 31, 25) < 128
        && field(inst, 30, 30) < 2 && store_offset(inst) < 4096 && branch_offset(inst) < 8192)
        by (bit_vector);
}

/// Bits `lsb..=msb` of `inst`, moved down to bit 0.
pub fn get_bits(inst: u32, msb: usize, lsb: usize) -> (r: u32)
    requires
        lsb <= msb < 32,
    ensures
        r == field(inst, msb as u32, lsb as u32),
{
    let mask = mask_of((msb - lsb + 1) as u64);
    let wide: u64 = (inst as u64 >> lsb) & mask;
    assert(wide == field64(inst as u64, msb as u64, lsb as u64));
    assert(wide < 0x1_0000_0000) by (bit_vector)
        requires
            lsb <= msb < 32,
            wide == field64(inst as u64, msb as u64, lsb as u64),
    ;
    wide as u32
}

/// Bits `lsb..=msb` of `inst`, sign-extended from the field's top bit.
pub fn get_bits_extended(inst: u32, msb: usize, lsb: usize) -> (r: u32)
    requires
        lsb <= msb < 32,
    ensures
        r == sext(field(inst, msb as u32, lsb as u32), (msb - lsb) as u32),
{
    let bits = get_bits(inst, msb, lsb);
    sign_extend(bits, (msb - lsb) as u32)
}

/// The major opcode, bits `6:2`.
pub fn get_op(inst: u32) -> (r: u32)
    ensures
        r == field(inst, 6, 2),
        r < 32,
{
    proof {
        lemma_field_bounds(inst);
    }
    get_bits(inst, 6, 2)
}

/// The `funct3` field, bits `14:12`.
pub fn get_funct3(inst: u32) -> (r: u32)
    ensures
        r == field(inst, 14, 12),
        r < 8,
{
    proof {
        lemma_field_bounds(inst);
    }
    get_bits(inst, 14, 12)
}

/// The destination register, bits `11:7`.
pub fn get_rd(inst: u32) -> (r: usize)
    ensures
        r == field(inst, 11, 7),
        r < 32,
{
    proof {
        lemma_field_bounds(inst);
    }
    get_bits(inst, 11, 7) as usize
}

/// The first source register, bits `19:15`.
pub fn get_rs1(inst: u32) -> (r: usize)
    ensures
        r == field(inst, 19, 15),
        r < 32,
{
    proof {
        lemma_field_bounds(inst);
    }
    get_bits(inst, 19, 15) as usize
}

/// The second source register, bits `24:20`.
pub fn get_rs2(inst: u32) -> (r: usize)
    ensures
        r == field(inst, 24, 20),
        r < 32,
{
    proof {
        lemma_field_bounds(inst);
    }
    get_bits(inst, 24, 20) as usize
}

/// The sign-extended offset of a jump-and-link.
pub fn get_imm_jal(inst: u32) -> (r: u32)
    ensures
        r == jal_offset(inst),
{
    let imm = (get_bits(inst, 31, 31) << 20) | (get_bits(inst, 19, 12) << 12) | (get_bits(
        inst,
        20,
        20,
    ) << 11) | (get_bits(inst, 30, 21) << 1);
    sign_extend(imm, 20)
}

/// `data` sign-extended from bit `msb`: when that bit is set, every bit
/// above it is set, that is the mask `((1 << (31 - msb)) - 1) << (msb + 1)`
/// is or-ed in; otherwise `data` is returned as it is.
pub fn sign_extend(data: u32, msb: u32) -> (r: u32)
    requires
        msb < 32,
    ensures
        r == sext(data, msb),
{
    if ((data >> msb) & 1) == 1 {
        let below = mask_of((msb + 1) as u64);
        #[verifier::truncate]
        let fill = !(below as u32);
        data | fill
    } else {
        data
    }
}

/// The 13-bit offset of a branch, before sign extension.
pub fn get_imm_branch(inst: u32) -> (r: u32)
    ensures
        r == branch_offset(inst),
        r < 8192,
{
    proof {
        lemma_field_bounds(inst);
    }
    (get_bits(inst, 31, 31) << 12) | (get_bits(inst, 7, 7) << 11) | (get_bits(inst, 30, 25) << 5)
        | (get_bits(inst, 11, 8) << 1)
}

/// The 12-bit offset of a load, before sign extension.
pub fn get_imm_ld(inst: u32) -> (r: u32)
    ensures
        r == field(inst, 31, 20),
        r < 4096,
{
    proof {
        lemma_field_bounds(inst);
    }
    get_bits(inst, 31, 20)
}

/// The 12-bit offset of a store, before sign extension.
pub fn get_imm_st(inst: u32) -> (r: u32)
    ensures
        r == store_offset(inst),
        r < 4096,
{
    proof {
        lemma_field_bounds(inst);
    }
    (get_bits(inst, 31, 25) << 5) | get_bits(inst, 11, 7)
}

} // verus!
