//! The 32 general-purpose integer registers. Register 0 always reads as
//! zero and writes to it are discarded; reads and writes are masked to a
//! width of 1, 2, 4 or 8 bytes.
use vstd::prelude::*;

verus! {

/// The number of integer registers.
pub const REGISTER_COUNT: usize = 32;

/// A width in bytes that a register access accepts.
pub open spec fn is_width(len: u8) -> bool {
    len == 1 || len == 2 || len == 4 || len == 8
}

/// The low `len` bytes of `v`.
pub open spec fn truncate(v: u64, len: u8) -> u64 {
    if len == 1 {
        v as u8 as u64
    } else if len == 2 {
        v as u16 as u64
    } else if len == 4 {
        v as u32 as u64
    } else {
        v
    }
}

/// What reading register `n` at width `len` yields, `None` for an error.
pub open spec fn read_spec(regs: Seq<u64>, n: int, len: u8) -> Option<u64> {
    if n < 0 || n >= 32 {
        None
    } else if n == 0 {
        Some(0)
    } else if is_width(len) {
        Some(truncate(regs[n], len))
    } else {
        None
    }
}

/// Whether writing register `n` at width `len` succeeds.
pub open spec fn write_ok(n: int, len: u8) -> bool {
    0 <= n < 32 && is_width(len)
}

/// The registers after writing `d` to register `n` at width `len`: a write
/// to register 0, or one that fails, changes nothing.
pub open spec fn write_spec(regs: Seq<u64>, n: int, d: u64, len: u8) -> Seq<u64> {
    if write_ok(n, len) && n != 0 {
        regs.update(n, truncate(d, len))
    } else {
        regs
    }
}

/// Register 0 reads as zero after any write to it, whatever the widths of
/// the write and of the read.
pub proof fn lemma_zero_register(regs: Seq<u64>, d: u64, wlen: u8, rlen: u8)
    requires
        regs.len() == 32,
    ensures
        read_spec(write_spec(regs, 0, d, wlen), 0, rlen) == Some(0u64),
        write_spec(regs, 0, d, wlen) == regs,
{
}

/// The integer register file.
#[derive(Clone, Copy)]
pub struct Register {
    registers: [u64; REGISTER_COUNT],
}

impl View for Register {
    type V = Seq<u64>;

    closed spec fn view(&self) -> Seq<u64> {
        self.registers@
    }
}

impl Register {
    /// The register file is always 32 registers long.
    pub proof fn lemma_len(&self)
        ensures
            self@.len() == 32,
    {
    }

    /// A register file holding `registers`.
    pub fn new(registers: [u64; REGISTER_COUNT]) -> (r: Register)
        ensures
            r@ == registers@,
    {
        Register { registers }
    }

    /// Register `n` masked to `len` bytes; register 0 reads as 0.
    pub fn read(&self, n: usize, len: u8) -> (r: Result<u64, String>)
        ensures
            match r {
                Ok(v) => read_spec(self@, n as int, len) == Some(v),
                Err(_) => read_spec(self@, n as int, len) is None,
            },
    {
        if n >= REGISTER_COUNT {
            return Err("Too large register number".to_string());
        }
        if n == 0 {
            return Ok(0);
        }
        let v = self.registers[n];
        #[verifier::truncate]
        let r = match len {
            1 => v as u8 as u64,
            2 => v as u16 as u64,
            4 => v as u32 as u64,
            8 => v,
            _ => {
                return Err("No such length".to_string());
            },
        };
        Ok(r)
    }

    /// Writes the low `len` bytes of `d` to register `n`; a write to
    /// register 0 is discarded.
    pub fn write(&mut self, n: usize, d: u64, len: u8) -> (r: Result<(), String>)
        ensures
            r is Ok <==> write_ok(n as int, len),
            final(self)@ == write_spec(old(self)@, n as int, d, len),
    {
        if n >= REGISTER_COUNT {
            return Err("Too large register number".to_string());
        }
        #[verifier::truncate]
        let v = match len {
            1 => d as u8 as u64,
            2 => d as u16 as u64,
            4 => d as u32 as u64,
            8 => d,
            _ => {
                return Err("No such length".to_string());
            },
        };
        if n != 0 {
            self.registers[n] = v;
        }
        Ok(())
    }
}

} // verus!
