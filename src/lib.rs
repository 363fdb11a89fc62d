//! A small RV32 emulator core: bit-field utilities, the register file, the
//! control/status register bank, byte-addressed memory, a shadow call stack
//! and the fetch/decode/execute engine that ties them together.

pub mod bitutils;
pub mod cpu;
pub mod csr;
pub mod mmu;
pub mod register;
pub mod shadowstack;
