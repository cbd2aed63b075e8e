use empl::ext::integer::IntegerExt;

#[test]
fn int_digits() {
    fn test_num(i: i32, digits: u32) {
        assert_eq!(i.digits(), digits);
        assert_eq!((-i).digits(), digits);
    }

    test_num(0, 1);
    test_num(1, 1);
    test_num(10, 2);
    test_num(100, 3);
}

#[test]
fn digits_of_extremes() {
    assert_eq!(i32::MIN.digits(), 10);
    assert_eq!(u128::MAX.digits(), 39);
    assert_eq!(u8::MAX.checked_digits(), Some(3));
    assert_eq!(9usize.digits(), 1);
    assert_eq!((-99i64).digits(), 2);
}
