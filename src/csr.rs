//! The bank of 4096 control/status registers, addressed by a 12-bit index.
use vstd::prelude::*;

verus! {

/// The number of control/status registers.
pub const LIMIT_CSR: usize = 4096;

/// The control/status register bank.
pub struct Csr {
    register: [u64; LIMIT_CSR],
}

impl View for Csr {
    type V = Seq<u64>;

    closed spec fn view(&self) -> Seq<u64> {
        self.register@
    }
}

impl Csr {
    /// The bank is always 4096 registers long.
    pub proof fn lemma_len(&self)
        ensures
            self@.len() == LIMIT_CSR,
    {
    }

    /// A bank holding `register`.
    pub fn new(register: [u64; LIMIT_CSR]) -> (r: Csr)
        ensures
            r@ == register@,
    {
        Csr { register }
    }

    /// Stores `data` at `address`; an address of 4096 or more is an error
    /// and changes nothing.
    pub fn write(&mut self, address: usize, data: u64) -> (r: Result<(), String>)
        ensures
            r is Ok <==> address < LIMIT_CSR,
            r is Ok ==> final(self)@ == old(self)@.update(address as int, data),
            r is Err ==> final(self)@ == old(self)@,
    {
        if address < LIMIT_CSR {
            self.register[address] = data;
            Ok(())
        } else {
            Err("referring to out-of-range address".to_string())
        }
    }

    /// The value at `address`; an address of 4096 or more is an error.
    pub fn read(&self, address: usize) -> (r: Result<u64, String>)
        ensures
            r is Ok <==> address < LIMIT_CSR,
            r is Ok ==> r == Ok::<u64, String>(self@[address as int]),
    {
        if address < LIMIT_CSR {
            Ok(self.register[address])
        } else {
            Err("referring to out-of-range address".to_string())
        }
    }
}

} // verus!
