use audit::SyscallMask;

#[test]
fn select_none_then_set_isolates_one_bit() {
    let mut m = SyscallMask::select_none();
    m.set(135);
    assert!(m.test(135));
    for nr in 0..2048u32 {
        assert_eq!(m.test(nr), nr == 135);
    }
}

#[test]
fn select_all_selects_every_valid_bit() {
    let m = SyscallMask::select_all();
    for nr in 0..2048u32 {
        assert!(m.test(nr));
    }
    assert!(!m.test(2048));
    assert!(!m.test(u32::MAX));
}

#[test]
fn out_of_range_set_is_a_no_op() {
    let mut m = SyscallMask::select_none();
    m.set(2048);
    m.set(5000);
    for nr in 0..2048u32 {
        assert!(!m.test(nr));
    }
}

#[test]
fn merge_unions_selections() {
    let mut a = SyscallMask::select_none();
    a.set(1);
    a.set(100);
    let mut b = SyscallMask::select_none();
    b.set(100);
    b.set(2000);
    a.merge(&b);
    for nr in 0..2048u32 {
        assert_eq!(a.test(nr), nr == 1 || nr == 100 || nr == 2000);
    }
}
