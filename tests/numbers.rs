use gnulib_quote::intprops::{int_bits_strlen_bound, int_bufsize_bound, BitWidth, IsInteger, IsSigned, SafeArith};
use gnulib_quote::umaxtostr::{umaxtostr, umaxtostr_buf, umaxtostr_efficient};

#[test]
fn test_is_integer() {
    assert!(i32::is_integer());
    assert!(u64::is_integer());
}

#[test]
fn test_is_signed() {
    assert!(i32::is_signed());
    assert!(!u32::is_signed());
}

#[test]
fn test_bit_width() {
    assert_eq!(i32::bit_width(), 32);
    assert_eq!(u64::bit_width(), 64);
}

#[test]
fn test_safe_arithmetic() {
    let a: i32 = 100;
    let b: i32 = 50;

    assert_eq!(a.checked_add_ext(b), Some(150));
    assert_eq!(a.checked_sub_ext(b), Some(50));
    assert_eq!(a.checked_mul_ext(b), Some(5000));
    assert_eq!(a.checked_div_ext(b), Some(2));
    assert_eq!(a.checked_rem_ext(b), Some(0));

    let max = i32::MAX;
    assert_eq!(max.checked_add_ext(1), None);
}

#[test]
fn test_string_length_bounds() {
    assert!(int_bits_strlen_bound(32) >= 10);
    assert!(int_bufsize_bound::<i32>() >= 11);
}

#[test]
fn exact_length_bounds() {
    assert_eq!(int_bits_strlen_bound(32), 10);
    assert_eq!(int_bits_strlen_bound(64), 20);
    assert_eq!(int_bits_strlen_bound(0), 0);
    assert_eq!(int_bufsize_bound::<i32>(), 12);
    assert_eq!(int_bufsize_bound::<u64>(), 21);
    assert_eq!(int_bufsize_bound::<i8>(), 5);
}

#[test]
fn checked_arithmetic_edges() {
    assert_eq!((-7i32).checked_div_ext(2), Some(-3));
    assert_eq!((-7i32).checked_rem_ext(2), Some(-1));
    assert_eq!(7i64.checked_rem_ext(-2), Some(1));
    assert_eq!(1i8.checked_div_ext(0), None);
    assert_eq!(i8::MIN.checked_div_ext(-1), None);
    assert_eq!(i16::MIN.checked_rem_ext(-1), None);
    assert_eq!(i64::MIN.checked_neg_ext(), None);
    assert_eq!(5isize.checked_neg_ext(), Some(-5));
    assert_eq!(1i32.checked_shl_ext(31), Some(i32::MIN));
    assert_eq!(1i32.checked_shl_ext(32), None);
    assert_eq!(i128::MAX.checked_mul_ext(2), None);
    assert_eq!(i8::MIN.checked_sub_ext(1), None);
}

#[test]
fn test_umaxtostr() {
    assert_eq!(umaxtostr(0u64), "0");
    assert_eq!(umaxtostr(123u64), "123");
    assert_eq!(umaxtostr(u64::MAX), "18446744073709551615");
    assert_eq!(umaxtostr(42u32), "42");
}

#[test]
fn test_umaxtostr_efficient() {
    assert_eq!(umaxtostr_efficient(0u64), "0");
    assert_eq!(umaxtostr_efficient(123u64), "123");
    assert_eq!(umaxtostr_efficient(u64::MAX), "18446744073709551615");
    assert_eq!(umaxtostr_efficient(42u32), "42");
}

#[test]
fn test_umaxtostr_buf() {
    let mut buf = String::with_capacity(20);

    assert_eq!(umaxtostr_buf(0u64, &mut buf), "0");
    assert_eq!(umaxtostr_buf(123u64, &mut buf), "123");
    assert_eq!(umaxtostr_buf(u64::MAX, &mut buf), "18446744073709551615");
    assert_eq!(umaxtostr_buf(42u32, &mut buf), "42");
}

#[test]
fn test_large_numbers() {
    let large = u128::MAX;
    assert_eq!(umaxtostr(large).parse::<u128>().unwrap(), large);
    assert_eq!(umaxtostr_efficient(large).parse::<u128>().unwrap(), large);

    let mut buf = String::new();
    assert_eq!(
        umaxtostr_buf(large, &mut buf).parse::<u128>().unwrap(),
        large
    );
}

#[test]
fn umaxtostr_small_types_and_buffer_reuse() {
    assert_eq!(umaxtostr(7u8), "7");
    assert_eq!(umaxtostr(65535u16), "65535");
    let mut buf = String::from("stale contents");
    assert_eq!(umaxtostr_buf(10u8, &mut buf), "10");
    assert_eq!(buf, "10");
}
