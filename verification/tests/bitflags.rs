use recordkeeper::flags::BitFlags;
use recordkeeper::flags::FlagIndexError;

#[test]
fn setting_one_bit_leaves_all_others_alone() {
    let mut f: BitFlags<1> = BitFlags::new();
    assert!(f.set(5, true).is_ok());
    for i in 0..8 {
        assert_eq!(Some(i == 5), f.get(i), "bit {i}");
    }
}

#[test]
fn set_then_clear_reads_false() {
    let mut f: BitFlags<1> = BitFlags::new();
    f.set(3, true).unwrap();
    assert_eq!(Some(true), f.get(3));
    f.set(3, false).unwrap();
    assert_eq!(Some(false), f.get(3));
}

#[test]
fn clearing_one_bit_leaves_all_others_alone() {
    let mut f: BitFlags<2> = BitFlags::new();
    for i in 0..16 {
        f.set(i, true).unwrap();
    }
    f.set(9, false).unwrap();
    for i in 0..16 {
        assert_eq!(Some(i != 9), f.get(i), "bit {i}");
    }
}

#[test]
fn out_of_range_index_is_reported() {
    let mut f: BitFlags<1> = BitFlags::new();
    assert_eq!(None, f.get(8));
    assert_eq!(Err(FlagIndexError), f.set(8, true));
    assert_eq!(Some(false), f.get(7));
}
