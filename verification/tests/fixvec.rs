use recordkeeper::util::CapacityError;
use recordkeeper::util::FixStr;
use recordkeeper::util::FixVec;

#[test]
fn push_to_capacity_then_fail_then_pop_and_push_again() {
    let mut v: FixVec<u16, 4> = FixVec::new(0);
    assert!(v.try_push(10).is_ok());
    assert!(v.try_push(20).is_ok());
    assert!(v.try_push(30).is_ok());
    assert!(v.try_push(40).is_ok());
    assert!(matches!(v.try_push(50), Err(CapacityError)));
    assert_eq!(4, v.len());
    assert_eq!(Ok(40), v.try_pop());
    assert_eq!(3, v.len());
    assert!(v.try_push(41).is_ok());
    assert_eq!(4, v.len());
}

#[test]
fn get_beyond_len_is_absent_even_within_capacity() {
    let mut v: FixVec<u16, 4> = FixVec::new(7);
    assert!(v.try_push(1).is_ok());
    assert_eq!(Some(&1), v.get(0));
    assert_eq!(None, v.get(1));
    assert_eq!(None, v.get(3));
    assert_eq!(None, v.get(100));
}

#[test]
fn pop_of_empty_reports_capacity_error() {
    let mut v: FixVec<u16, 4> = FixVec::new(0);
    assert!(matches!(v.try_pop(), Err(CapacityError)));
}

#[test]
fn set_overwrites_in_place() {
    let mut v: FixVec<u16, 4> = FixVec::new(0);
    v.try_push(5).unwrap();
    v.try_push(6).unwrap();
    v.set(1, 99);
    assert_eq!(Some(&5), v.get(0));
    assert_eq!(Some(&99), v.get(1));
}

#[test]
fn iter_yields_only_logical_elements() {
    let mut v: FixVec<u16, 4> = FixVec::new(0);
    v.try_push(3).unwrap();
    v.try_push(4).unwrap();
    assert_eq!(vec![3u16, 4u16], v.iter());
    v.clear();
    assert!(v.is_empty());
    assert_eq!(Vec::<u16>::new(), v.iter());
}

#[test]
fn capacity_is_fixed() {
    let v: FixVec<u16, 4> = FixVec::new(0);
    assert_eq!(4, v.capacity());
    assert!(v.is_empty());
}

#[test]
fn fixstr_round_trips_its_storage() {
    let mut s: FixStr<4> = FixStr::new();
    s.buf[0] = b'a';
    s.buf[1] = b'b';
    let mut buf = vec![0xeeu8; 12];
    s.write_at(&mut buf, 3);
    assert_eq!(0xee, buf[2]);
    assert_eq!(b'a', buf[3]);
    assert_eq!(b'b', buf[4]);
    assert_eq!(0, buf[5]);
    assert_eq!(0xee, buf[7]);
    let t: FixStr<4> = FixStr::read_at(&buf, 3);
    assert_eq!(s.buf, t.buf);
}

#[test]
fn encoded_vector_round_trips_with_its_length() {
    let mut v: FixVec<u16, 4> = FixVec::new(0);
    v.try_push(0x1111).unwrap();
    v.try_push(0x2222).unwrap();
    let mut buf = vec![0xccu8; 24];
    v.write_at(&mut buf, 2);
    assert_eq!(0xcc, buf[0]);
    assert_eq!(0xcc, buf[20]);
    let d: FixVec<u16, 4> = FixVec::read_at(&buf, 2);
    assert_eq!(2, d.len());
    assert_eq!(Some(&0x1111), d.get(0));
    assert_eq!(Some(&0x2222), d.get(1));
    assert_eq!(None, d.get(2));
}

#[test]
fn overlong_stored_length_is_clamped_to_capacity() {
    // four 16-bit elements, then a stored 64-bit length of 100
    let mut buf = vec![0u8; 16];
    buf[0] = 1;
    buf[2] = 2;
    buf[4] = 3;
    buf[6] = 4;
    buf[8] = 100;
    let d: FixVec<u16, 4> = FixVec::read_at(&buf, 0);
    assert_eq!(4, d.len());
    assert_eq!(Some(&4), d.get(3));
    assert_eq!(None, d.get(4));
}
