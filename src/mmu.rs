//! Flat byte-addressed memory with little-endian multi-byte access. In test
//! mode a 4-byte store reports a pass/fail verdict instead of storing.
use vstd::arithmetic::power2::{lemma2_to64, lemma2_to64_rest, lemma_pow2_adds, lemma_pow2_pos, lemma_pow2_strictly_increases, pow2};
use vstd::arithmetic::div_mod::lemma_mod_breakdown;
use vstd::bits::{lemma_u64_shl_is_mul, lemma_u64_shr_is_div};
use vstd::prelude::*;

verus! {

/// Whether execution goes on, or a test program has reported its verdict.
#[derive(Clone, Copy, Debug, PartialEq, Eq, Structural)]
pub enum Status {
    Running,
    Passed,
    Failed,
}

/// The number whose little-endian bytes are `s`.
pub open spec fn le_value(s: Seq<u8>) -> nat
    decreases s.len(),
{
    if s.len() == 0 {
        0
    } else {
        (le_value(s.drop_last()) + s.last() * pow2((8 * (s.len() - 1)) as nat)) as nat
    }
}

/// `mem` with the `n` bytes from `p` on replaced by the `n` low bytes of
/// `value`, least significant first.
pub open spec fn store_spec(mem: Seq<u8>, p: int, value: u64, n: int) -> Seq<u8> {
    Seq::new(
        mem.len(),
        |j: int|
            if p <= j < p + n {
                (value >> ((8 * (j - p)) as u64)) as u8
            } else {
                mem[j]
            },
    )
}

/// Reading back the `n` bytes just stored gives the value modulo
/// `2^(8n)`: its `n` low bytes.
pub proof fn lemma_store_then_read(mem: Seq<u8>, p: int, value: u64, n: nat)
    requires
        0 <= p,
        p + n <= mem.len(),
        n <= 8,
    ensures
        le_value(store_spec(mem, p, value, n as int).subrange(p, p + n)) == value as nat % pow2(
            8 * n,
        ),
    decreases n,
{
    if n == 0 {
        lemma2_to64();
        assert(store_spec(mem, p, value, 0).subrange(p, p) =~= Seq::<u8>::empty());
    } else {
        let m = (n - 1) as nat;
        lemma_store_then_read(mem, p, value, m);
        let s = store_spec(mem, p, value, n as int).subrange(p, p + n);
        assert(s.drop_last() =~= store_spec(mem, p, value, m as int).subrange(p, p + m));
        let k = (8 * m) as u64;
        let high = value >> k;
        assert(s.last() == high as u8);
        assert(high as u8 == high % 256) by (bit_vector);
        lemma_u64_shr_is_div(value, k);
        lemma2_to64();
        lemma_pow2_adds(8 * m, 8);
        lemma_pow2_pos(8 * m);
        assert(8 * n == 8 * m + 8);
        lemma_mod_breakdown(value as int, pow2(8 * m) as int, 256);
        let q = pow2(8 * m);
        let b = (value as nat / q) % 256;
        assert(s.len() == n);
        assert(le_value(s) == value as nat % q + s.last() * q);
        assert(s.last() * q == b * q);
        assert(b * q == q * b) by (nonlinear_arith);
        assert(pow2(8 * n) == q * 256);
    }
}

/// The verdict a test program reports by a 4-byte store of `data`: a pass
/// when its second byte is 1, a failure otherwise.
pub open spec fn test_verdict(data: u32) -> Status {
    if (data >> 8u32) as u8 == 1 {
        Status::Passed
    } else {
        Status::Failed
    }
}

/// The memory image, and whether test-harness stores are intercepted.
pub struct Mmu {
    mem: Vec<u8>,
    test_mode: bool,
}

impl View for Mmu {
    type V = Seq<u8>;

    closed spec fn view(&self) -> Seq<u8> {
        self.mem@
    }
}

impl Mmu {
    /// Whether 4-byte stores report a test verdict.
    pub closed spec fn is_test_mode(&self) -> bool {
        self.test_mode
    }

    /// Memory holding `mem` from address 0 on.
    pub fn new(mem: Vec<u8>, test_mode: bool) -> (r: Mmu)
        ensures
            r@ == mem@,
            r.is_test_mode() == test_mode,
    {
        Mmu { mem, test_mode }
    }

    /// The number of bytes of memory.
    pub fn size(&self) -> (r: usize)
        ensures
            r == self@.len(),
    {
        self.mem.len()
    }

    /// Whether 4-byte stores report a test verdict.
    pub fn test_mode(&self) -> (r: bool)
        ensures
            r == self.is_test_mode(),
    {
        self.test_mode
    }

    /// The `n` bytes from `p` on, read as a little-endian number.
    pub fn read_nbytes(&self, p: u64, n: u64) -> (r: u64)
        requires
            n <= 8,
            p + n <= self@.len(),
        ensures
            r == le_value(self@.subrange(p as int, p + n)),
    {
        let size = self.mem.len();
        let mut result: u64 = 0;
        let mut i: u64 = 0;
        proof {
            lemma2_to64();
            lemma2_to64_rest();
            assert(self@.subrange(p as int, p as int) =~= Seq::<u8>::empty());
        }
        while i < n
            invariant
                i <= n <= 8,
                p + n <= self@.len(),
                size == self@.len(),
                pow2(56) == 0x100_0000_0000_0000,
                pow2(64) == 0x1_0000_0000_0000_0000,
                result == le_value(self@.subrange(p as int, p + i)),
                result < pow2((8 * i) as nat),
            decreases n - i,
        {
            let b = self.mem[(p + i) as usize];
            proof {
                let s = self@.subrange(p as int, p + i + 1);
                assert(s.drop_last() =~= self@.subrange(p as int, p + i));
                let e = (8 * i) as nat;
                let q = pow2(e);
                if e < 56 {
                    lemma_pow2_strictly_increases(e, 56);
                }
                lemma_pow2_adds(e, 8);
                lemma2_to64();
                assert((8 * (i + 1)) as nat == e + 8);
                if e + 8 < 64 {
                    lemma_pow2_strictly_increases(e + 8, 64);
                }
                assert(b * q <= 255 * pow2(56)) by (nonlinear_arith)
                    requires
                        b <= 255,
                        q <= pow2(56),
                ;
                assert(result + b * q < 256 * q) by (nonlinear_arith)
                    requires
                        result < q,
                        b <= 255,
                ;
                lemma_u64_shl_is_mul(b as u64, (8 * i) as u64);
            }
            result = result + ((b as u64) << (8 * i));
            i += 1;
        }
        result
    }

    /// Stores the `n` low bytes of `value` from `p` on, least significant
    /// first.
    fn store_bytes(&mut self, p: u64, value: u64, n: u64)
        requires
            n <= 8,
            p + n <= old(self)@.len(),
        ensures
            final(self)@ == store_spec(old(self)@, p as int, value, n as int),
            final(self).is_test_mode() == old(self).is_test_mode(),
    {
        let size = self.mem.len();
        let mut i: u64 = 0;
        assert(self@ =~= store_spec(old(self)@, p as int, value, 0));
        while i < n
            invariant
                i <= n <= 8,
                p + n <= old(self)@.len(),
                size == old(self)@.len(),
                self@.len() == old(self)@.len(),
                self.test_mode == old(self).test_mode,
                self@ == store_spec(old(self)@, p as int, value, i as int),
            decreases n - i,
        {
            #[verifier::truncate]
            let b = (value >> (8 * i)) as u8;
            let k = (p + i) as usize;
            self.mem.set(k, b);
            i += 1;
            assert(self@ =~= store_spec(old(self)@, p as int, value, i as int));
        }
    }

    /// Stores one byte at `p`.
    pub fn write_byte(&mut self, p: u64, data: u8)
        requires
            p < old(self)@.len(),
        ensures
            final(self)@ == old(self)@.update(p as int, data),
            final(self).is_test_mode() == old(self).is_test_mode(),
    {
        self.store_bytes(p, data as u64, 1);
        assert((data as u64 >> 0u64) as u8 == data) by (bit_vector);
        assert(self@ =~= old(self)@.update(p as int, data));
    }

    /// Stores the two bytes of `data` from `p` on, least significant first.
    pub fn write_2byte(&mut self, p: u64, data: u16)
        requires
            p + 2 <= old(self)@.len(),
        ensures
            final(self)@ == store_spec(old(self)@, p as int, data as u64, 2),
            final(self).is_test_mode() == old(self).is_test_mode(),
    {
        self.store_bytes(p, data as u64, 2);
    }

    /// Stores the four bytes of `data` from `p` on, least significant first,
    /// and reports `Running`. In test mode nothing is stored: the store is
    /// the test program's verdict, which is reported instead.
    pub fn write_4byte(&mut self, p: u64, data: u32) -> (r: Status)
        requires
            old(self).is_test_mode() || p + 4 <= old(self)@.len(),
        ensures
            old(self).is_test_mode() ==> r == test_verdict(data) && *final(self) == *old(self),
            !old(self).is_test_mode() ==> r == Status::Running && final(self)@ == store_spec(
                old(self)@,
                p as int,
                data as u64,
                4,
            ),
            final(self).is_test_mode() == old(self).is_test_mode(),
    {
        if self.test_mode {
            #[verifier::truncate]
            let second = (data >> 8u32) as u8;
            if second == 1 {
                Status::Passed
            } else {
                Status::Failed
            }
        } else {
            self.store_bytes(p, data as u64, 4);
            Status::Running
        }
    }
}

} // verus!
