use rs_riscv_sc::shadowstack::ShadowStack;

#[test]
fn push() {
    let mut sstack = ShadowStack::new(0, [0; 255]);
    assert!(sstack.get_sp() == 0);
    assert!(sstack.get_stack(0) == 0);
    let _ = sstack.push(1);
    assert!(sstack.get_sp() == 1);
    assert!(sstack.get_stack(0) == 1);
}

#[test]
fn pushandpop() {
    let mut sstack = ShadowStack::new(0, [0; 255]);
    let _ = sstack.push(1);
    match sstack.pop() {
        Ok(r) => {
            println!("{}", r);
            assert!(r == 1);
        }
        Err(r) => panic!("{}", r),
    }
}

#[test]
fn pops_come_out_reversed() {
    let mut s = ShadowStack::new(0, [0; 255]);
    for a in 1..=10u64 {
        assert!(s.push(a * 4).is_ok());
    }
    let mut out = Vec::new();
    for _ in 0..10 {
        out.push(s.pop().unwrap());
    }
    assert_eq!(out, vec![40, 36, 32, 28, 24, 20, 16, 12, 8, 4]);
    assert_eq!(s.get_sp(), 0);
}

#[test]
fn pop_on_empty_fails() {
    let mut s = ShadowStack::new(0, [0; 255]);
    assert!(s.pop().is_err());
    assert_eq!(s.get_sp(), 0);
}

#[test]
fn push_beyond_capacity_fails() {
    let mut s = ShadowStack::new(0, [0; 255]);
    for a in 0..255u64 {
        assert!(s.push(a).is_ok());
    }
    assert_eq!(s.get_sp(), 255);
    assert!(s.push(999).is_err());
    assert_eq!(s.get_sp(), 255);
    assert_eq!(s.pop().unwrap(), 254);
}

#[test]
fn starts_from_given_pointer() {
    let mut slots = [0u64; 255];
    slots[0] = 7;
    slots[1] = 9;
    let mut s = ShadowStack::new(2, slots);
    assert_eq!(s.get_sp(), 2);
    assert_eq!(s.pop().unwrap(), 9);
    assert_eq!(s.pop().unwrap(), 7);
}
