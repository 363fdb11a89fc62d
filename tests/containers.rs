use rs_riscv_sc::csr::Csr;
use rs_riscv_sc::mmu::{Mmu, Status};
use rs_riscv_sc::register::Register;

#[test]
fn register_reads_are_masked() {
    let mut r = Register::new([0; 32]);
    assert!(r.write(5, 0x0123_4567_89ab_cdef, 8).is_ok());
    assert_eq!(r.read(5, 1), Ok(0xef));
    assert_eq!(r.read(5, 2), Ok(0xcdef));
    assert_eq!(r.read(5, 4), Ok(0x89ab_cdef));
    assert_eq!(r.read(5, 8), Ok(0x0123_4567_89ab_cdef));
}

#[test]
fn register_writes_are_masked() {
    let mut r = Register::new([0; 32]);
    assert!(r.write(6, 0x0123_4567_89ab_cdef, 4).is_ok());
    assert_eq!(r.read(6, 8), Ok(0x89ab_cdef));
    assert!(r.write(6, 0x0123_4567_89ab_cdef, 2).is_ok());
    assert_eq!(r.read(6, 8), Ok(0xcdef));
    assert!(r.write(6, 0x0123_4567_89ab_cdef, 1).is_ok());
    assert_eq!(r.read(6, 8), Ok(0xef));
}

#[test]
fn register_errors() {
    let mut r = Register::new([0; 32]);
    assert!(r.read(32, 4).is_err());
    assert!(r.write(32, 1, 4).is_err());
    assert!(r.read(5, 3).is_err());
    assert!(r.write(5, 1, 3).is_err());
    assert_eq!(r.read(5, 8), Ok(0));
    assert_eq!(r.read(0, 3), Ok(0));
}

#[test]
fn register_zero_reads_zero() {
    let mut r = Register::new([0; 32]);
    for w in [1u8, 2, 4, 8] {
        assert!(r.write(0, 0xffff_ffff_ffff_ffff, w).is_ok());
        for rw in [1u8, 2, 4, 8] {
            assert_eq!(r.read(0, rw), Ok(0));
        }
    }
    let mut preset = [0u64; 32];
    preset[0] = 42;
    assert_eq!(Register::new(preset).read(0, 8), Ok(0));
}

#[test]
fn csr_reads_back_writes() {
    let mut c = Csr::new([0; 4096]);
    assert!(c.write(4095, 7).is_ok());
    assert_eq!(c.read(4095), Ok(7));
    assert_eq!(c.read(0), Ok(0));
}

#[test]
fn csr_out_of_range() {
    let mut c = Csr::new([0; 4096]);
    assert!(c.write(4096, 1).is_err());
    assert!(c.read(4096).is_err());
}

#[test]
fn memory_reads_little_endian() {
    let m = Mmu::new(vec![0x11, 0x22, 0x33, 0x44, 0x55], false);
    assert_eq!(m.read_nbytes(0, 4), 0x4433_2211);
    assert_eq!(m.read_nbytes(1, 2), 0x3322);
    assert_eq!(m.read_nbytes(4, 1), 0x55);
    assert_eq!(m.read_nbytes(2, 0), 0);
    assert_eq!(m.size(), 5);
}

#[test]
fn memory_reads_eight_bytes() {
    let m = Mmu::new(vec![1, 2, 3, 4, 5, 6, 7, 0x88], false);
    assert_eq!(m.read_nbytes(0, 8), 0x8807_0605_0403_0201);
}

#[test]
fn memory_writes_little_endian() {
    let mut m = Mmu::new(vec![0; 8], false);
    m.write_byte(4, 0xaa);
    assert_eq!(m.read_nbytes(4, 1), 0xaa);
    m.write_2byte(0, 0xbeef);
    assert_eq!(m.read_nbytes(0, 1), 0xef);
    assert_eq!(m.read_nbytes(0, 2), 0xbeef);
    assert_eq!(m.write_4byte(1, 0xcafe_babe), Status::Running);
    assert_eq!(m.read_nbytes(0, 8), 0x0000_00ca_feba_beef);
}

#[test]
fn test_mode_store_reports_verdict() {
    let mut m = Mmu::new(vec![0; 8], true);
    assert!(m.test_mode());
    assert_eq!(m.write_4byte(0, 0x0000_0100), Status::Passed);
    assert_eq!(m.write_4byte(0, 0x0000_0200), Status::Failed);
    assert_eq!(m.write_4byte(0, 0x0000_0001), Status::Failed);
    assert_eq!(m.write_4byte(1000, 0xffff_01ff), Status::Passed);
    assert_eq!(m.read_nbytes(0, 8), 0);
}
