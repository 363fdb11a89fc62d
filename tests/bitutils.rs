use rs_riscv_sc::bitutils::Bits;
use rs_riscv_sc::cpu::rv32::{get_bits, sign_extend};

#[test]
fn test_new() {
    let b = Bits::new(7, 3);
    assert!(b.to_u32() == 7);
}

#[test]
fn test_shiftadd() {
    let mut b = Bits::new(7, 3);
    b = b.shiftadd(Bits::new(7, 3));
    println!("{:x}", b.to_u32());
    assert!(b.to_u32() == 63);
}

#[test]
fn blank_is_empty() {
    let mut b = Bits::blank();
    let r = b.shiftadd(Bits::new(0b101, 3));
    assert_eq!(r.to_u32(), 0b101);
}

#[test]
fn shiftadd_orders_groups_msb_first() {
    let mut b = Bits::new(0b1, 1);
    let r = b.shiftadd(Bits::new(0b0011, 4));
    assert_eq!(r.to_u32(), 0b1_0011);
    let mut c = Bits::new(0b0011, 4);
    let s = c.shiftadd(Bits::new(0b1, 1));
    assert_eq!(s.to_u32(), 0b0011_1);
}

#[test]
fn cut_new_takes_a_field() {
    let b = Bits::cut_new(0b1011_0110, 5, 2);
    assert_eq!(b.to_u32(), 0b1101);
    let full = Bits::cut_new(0xdead_beef, 31, 0);
    assert_eq!(full.to_u32(), 0xdead_beef);
}

#[test]
fn cut_takes_a_field() {
    let b = Bits::new(0xabcd, 16);
    assert_eq!(b.cut(11, 4).to_u32(), 0xbc);
    assert_eq!(b.cut(15, 15).to_u32(), 1);
}

#[test]
fn extend_from_top_bit() {
    assert_eq!(Bits::new(0b100, 3).extend(), 0xffff_fffc);
    assert_eq!(Bits::new(0b011, 3).extend(), 0b011);
    assert_eq!(Bits::new(1, 1).extend(), 0xffff_ffff);
}

#[test]
fn expand_changes_the_width() {
    let mut b = Bits::new(1, 1);
    let r = b.shiftadd(Bits::new(0b101, 3).expand(8));
    assert_eq!(r.to_u32(), (1 << 8) + 0b101);
}

#[test]
fn extract_then_reinsert() {
    let x: u32 = 0xdead_beef;
    assert_eq!(get_bits(x, 15, 8) << 8, x & 0x0000_ff00);
    assert_eq!(get_bits(x, 31, 0), x);
    assert_eq!(get_bits(x, 0, 0), x & 1);
    assert_eq!(get_bits(x, 31, 28) << 28, x & 0xf000_0000);
}

#[test]
fn sign_extend_examples() {
    assert_eq!(sign_extend(0b1111_1111, 7), 0xffff_ffff);
    assert_eq!(sign_extend(0b11_1111, 5), 0xffff_ffff);
    // bit 6 of 0b0111_1111 is set, so the field is negative
    assert_eq!(sign_extend(0b0111_1111, 6), 0xffff_ffff);
    assert_eq!(sign_extend(0b0011_1111, 6), 0x3f);
}

#[test]
fn sign_extend_boundaries() {
    assert_eq!(sign_extend(1, 0), 0xffff_ffff);
    assert_eq!(sign_extend(0, 0), 0);
    assert_eq!(sign_extend(0x4000_0000, 30), 0xc000_0000);
    assert_eq!(sign_extend(0x3fff_ffff, 30), 0x3fff_ffff);
    assert_eq!(sign_extend(0x8000_0000, 31), 0x8000_0000);
}
