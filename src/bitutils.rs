//! Bit-field primitives: extraction of a field, sign extension, and `Bits`,
//! a value of known width that is concatenated group by group to reassemble
//! immediates whose bits lie scattered in an instruction word.
use vstd::arithmetic::power2::{lemma2_to64, lemma_pow2_adds, lemma_pow2_strictly_increases, pow2};
use vstd::bits::{lemma_u64_pow2_no_overflow, lemma_u64_shl_is_mul};
use vstd::prelude::*;

use crate::cpu::rv32::sign_extend;

verus! {

/// The `width` lowest bits of a 64-bit word set, the others clear.
pub open spec fn low_mask(width: u64) -> u64 {
    if width >= 64 {
        0xffff_ffff_ffff_ffff
    } else {
        ((1u64 << width) - 1) as u64
    }
}

/// Bits `lsb..=msb` of `x`, moved down to bit 0.
pub open spec fn field64(x: u64, msb: u64, lsb: u64) -> u64 {
    (x >> lsb) & low_mask((msb - lsb + 1) as u64)
}

/// Bits `lsb..=msb` of a 32-bit word, moved down to bit 0.
pub open spec fn field(x: u32, msb: u32, lsb: u32) -> u32 {
    field64(x as u64, msb as u64, lsb as u64) as u32
}

/// The bits of a 32-bit word above position `msb`.
pub open spec fn bits_above(msb: u32) -> u32 {
    !(low_mask((msb + 1) as u64) as u32)
}

/// `data` sign-extended from bit `msb`: when that bit is set, every bit
/// above it is set as well; otherwise `data` is left as it is.
pub open spec fn sext(data: u32, msb: u32) -> u32 {
    if (data >> msb) & 1 == 1 {
        data | bits_above(msb)
    } else {
        data
    }
}

/// The bits `lsb..=msb` of a 32-bit word set, the others clear.
pub open spec fn range_mask(msb: u32, lsb: u32) -> u32 {
    (low_mask((msb + 1) as u64) as u32) & !(low_mask(lsb as u64) as u32)
}

/// Extracting bits `lsb..=msb` of a word and shifting them back to `lsb`
/// gives the word's bits in that range, every other bit cleared.
pub proof fn lemma_extract_reinsert(x: u32, msb: u32, lsb: u32)
    requires
        lsb <= msb < 32,
    ensures
        field(x, msb, lsb) << lsb == x & range_mask(msb, lsb),
{
    assert(field(x, msb, lsb) << lsb == x & range_mask(msb, lsb)) by (bit_vector)
        requires
            lsb <= msb < 32,
    ;
}

/// The mask of the `width` lowest bits.
pub fn mask_of(width: u64) -> (r: u64)
    ensures
        r == low_mask(width),
{
    if width >= 64 {
        0xffff_ffff_ffff_ffff
    } else {
        assert(1u64 << width >= 1) by (bit_vector)
            requires
                width < 64,
        ;
        (1u64 << width) - 1
    }
}

/// `1 << width` is `2^width`, so the mask of `width` bits is `2^width - 1`.
pub proof fn lemma_low_mask_pow2(width: u64)
    requires
        width < 64,
    ensures
        low_mask(width) + 1 == pow2(width as nat),
{
    lemma_u64_pow2_no_overflow(width as nat);
    lemma_u64_shl_is_mul(1, width);
}

/// A field of `w` bits is below `2^w`.
pub proof fn lemma_field64_fits(x: u64, msb: u64, lsb: u64)
    requires
        lsb <= msb < 64,
    ensures
        field64(x, msb, lsb) < pow2((msb - lsb + 1) as nat),
{
    let w = (msb - lsb + 1) as u64;
    assert(field64(x, msb, lsb) <= low_mask(w)) by (bit_vector)
        requires
            w == (msb - lsb + 1) as u64,
            lsb <= msb < 64,
    ;
    if w < 64 {
        lemma_low_mask_pow2(w);
    } else {
        lemma2_to64();
    }
}

/// A string of bits of a known width: `data` holds the bits, `len` how many
/// there are.
#[derive(Clone, Copy)]
pub struct Bits {
    data: u64,
    len: usize,
}

impl Bits {
    /// The number the bits stand for.
    pub closed spec fn value(&self) -> nat {
        self.data as nat
    }

    /// The declared number of bits.
    pub closed spec fn width(&self) -> nat {
        self.len as nat
    }

    /// The value fits in the declared width, and the width in a word.
    pub open spec fn fits(&self) -> bool {
        self.width() <= 64 && self.value() < pow2(self.width())
    }

    /// The empty string of bits.
    pub fn blank() -> (r: Self)
        ensures
            r.value() == 0,
            r.width() == 0,
            r.fits(),
    {
        proof {
            lemma2_to64();
        }
        Self { data: 0, len: 0 }
    }

    /// `len` bits holding `data`.
    pub fn new(data: u64, len: usize) -> (r: Self)
        ensures
            r.value() == data,
            r.width() == len,
    {
        Self { data, len }
    }

    /// These bits followed by the bits of `s`: the value is shifted left by
    /// the width of `s` and the value of `s` added; the widths add up.
    pub fn shiftadd(&mut self, s: Self) -> (r: Self)
        requires
            old(self).fits(),
            s.fits(),
            s.width() < 64,
            old(self).width() + s.width() <= 64,
        ensures
            *final(self) == *old(self),
            r.value() == old(self).value() * pow2(s.width()) + s.value(),
            r.width() == old(self).width() + s.width(),
            r.fits(),
    {
        proof {
            let hi = self.data as nat;
            let lo = s.data as nat;
            let p = pow2(s.len as nat);
            let q = pow2(self.len as nat);
            lemma_pow2_adds(self.len as nat, s.len as nat);
            if self.len + s.len < 64 {
                lemma_pow2_strictly_increases((self.len + s.len) as nat, 64);
            }
            lemma2_to64();
            assert(hi * p + lo < q * p) by (nonlinear_arith)
                requires
                    hi < q,
                    lo < p,
            ;
            lemma_u64_shl_is_mul(self.data, s.len as u64);
        }
        Self { data: (self.data << s.len) + s.data, len: self.len + s.len }
    }

    /// Bits `lsb..=msb` of a 32-bit word.
    pub fn cut_new(data: u32, msb: usize, lsb: usize) -> (r: Self)
        requires
            lsb <= msb < 32,
        ensures
            r.value() == field(data, msb as u32, lsb as u32),
            r.width() == msb - lsb + 1,
            r.fits(),
    {
        proof {
            lemma_field64_fits(data as u64, msb as u64, lsb as u64);
        }
        let mask = mask_of((msb - lsb + 1) as u64);
        let v: u64 = ((data as u64) >> lsb) & mask;
        assert(v < 0x1_0000_0000) by (bit_vector)
            requires
                lsb <= msb < 32,
                v == field64(data as u64, msb as u64, lsb as u64),
        ;
        Bits { data: v, len: msb - lsb + 1 }
    }

    /// Bits `lsb..=msb` of these bits.
    pub fn cut(&self, msb: usize, lsb: usize) -> (r: Self)
        requires
            lsb <= msb < 64,
        ensures
            r.value() == field64(self.value() as u64, msb as u64, lsb as u64),
            r.width() == msb - lsb + 1,
            r.fits(),
    {
        proof {
            lemma_field64_fits(self.data, msb as u64, lsb as u64);
        }
        let mask = mask_of((msb - lsb + 1) as u64);
        Bits { data: (self.data >> lsb) & mask, len: msb - lsb + 1 }
    }

    /// The low 32 bits of the value.
    pub fn to_u32(&self) -> (r: u32)
        ensures
            r == self.value() as u32,
    {
        #[verifier::truncate]
        let r = self.data as u32;
        r
    }

    /// The low 32 bits of the value sign-extended from the top bit, bit
    /// `width - 1`.
    pub fn extend(&self) -> (r: u32)
        requires
            1 <= self.width() <= 32,
        ensures
            r == sext(self.value() as u32, (self.width() - 1) as u32),
    {
        #[verifier::truncate]
        let low = self.data as u32;
        sign_extend(low, (self.len - 1) as u32)
    }

    /// The same value, declared `len` bits wide.
    pub fn expand(&self, len: usize) -> (r: Self)
        ensures
            r.value() == self.value(),
            r.width() == len,
    {
        Self { data: self.data, len }
    }
}

} // verus!
