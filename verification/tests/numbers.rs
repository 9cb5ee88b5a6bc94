use terra_sdk::{Dec, Error, IntoDec, Uint128, DEC_ONE, DEC_PRECISION};

#[test]
fn test_add() {
    let d1 = IntoDec::into_dec("0.32");
    let d2 = IntoDec::into_dec(3);
    let d3 = IntoDec::into_dec(-1);
    let d4 = d1
        .mul(d2)
        .unwrap()
        .mul(d2)
        .unwrap()
        .sub(d3)
        .unwrap()
        .sub(d3.mul(d3).unwrap().mul(d3).unwrap())
        .unwrap();
    println!("{}", d4.to_string());
    assert_eq!(d4, Dec::new(4_880_000_000_000_000_000));
    assert_eq!(d4.to_string(), "4.88");
}

#[test]
fn uint128_parses_empty_text_as_zero() {
    assert_eq!(Uint128::from_str(""), Ok(Uint128::new(0)));
    assert_eq!(Uint128::from_str("   "), Ok(Uint128::new(0)));
}

#[test]
fn uint128_parse_trims_white_space() {
    assert_eq!(Uint128::from_str(" 42 "), Ok(Uint128::new(42)));
    assert_eq!(Uint128::from_str("\t007\n"), Ok(Uint128::new(7)));
    assert_eq!(Uint128::from_str("\u{3000}5\u{a0}"), Ok(Uint128::new(5)));
}

#[test]
fn uint128_parse_rejects_what_is_no_digit_run() {
    assert_eq!(Uint128::from_str("-1"), Err(Error::Parse));
    assert_eq!(Uint128::from_str("+1"), Err(Error::Parse));
    assert_eq!(Uint128::from_str("1 2"), Err(Error::Parse));
    assert_eq!(Uint128::from_str("12a"), Err(Error::Parse));
    assert_eq!(Uint128::from_str("1.0"), Err(Error::Parse));
}

#[test]
fn uint128_parse_bounds() {
    assert_eq!(
        Uint128::from_str("340282366920938463463374607431768211455"),
        Ok(Uint128::new(u128::MAX))
    );
    assert_eq!(
        Uint128::from_str("340282366920938463463374607431768211456"),
        Err(Error::Parse)
    );
}

#[test]
fn uint128_writes_decimal_digits() {
    assert_eq!(Uint128::new(0).to_string(), "0");
    assert_eq!(Uint128::new(1000000).to_string(), "1000000");
    assert_eq!(
        Uint128::new(u128::MAX).to_string(),
        "340282366920938463463374607431768211455"
    );
    let value = Uint128::from_str("1000000").unwrap();
    assert_eq!(Uint128::from_str(&value.to_string()), Ok(value));
}

#[test]
fn uint128_add_then_sub_gives_back() {
    let a = Uint128::new(123_456_789);
    let b = Uint128::new(987_654_321);
    assert_eq!(a.add(b), Ok(Uint128::new(1_111_111_110)));
    assert_eq!(a.add(b).unwrap().sub(b), Ok(a));
    let top = Uint128::new(u128::MAX - 1);
    assert_eq!(top.add(Uint128::new(1)).unwrap().sub(Uint128::new(1)), Ok(top));
}

#[test]
fn uint128_arithmetic_errors() {
    let a = Uint128::new(7);
    assert_eq!(Uint128::new(u128::MAX).add(Uint128::new(1)), Err(Error::Overflow));
    assert_eq!(Uint128::new(u128::MAX).mul(Uint128::new(2)), Err(Error::Overflow));
    assert_eq!(Uint128::new(3).sub(a), Err(Error::Underflow));
    assert_eq!(a.div(Uint128::new(0)), Err(Error::DivideByZero));
    assert_eq!(a.rem(Uint128::new(0)), Err(Error::DivideByZero));
    assert_eq!(Uint128::new(0).div(Uint128::new(0)), Err(Error::DivideByZero));
}

#[test]
fn uint128_arithmetic_values() {
    let a = Uint128::new(7);
    let b = Uint128::new(2);
    assert_eq!(a.sub(b), Ok(Uint128::new(5)));
    assert_eq!(a.mul(b), Ok(Uint128::new(14)));
    assert_eq!(a.div(b), Ok(Uint128::new(3)));
    assert_eq!(a.rem(b), Ok(Uint128::new(1)));
    assert_eq!(a.u128(), 7);
    assert!(b < a);
    assert!(!(a < a));
    assert!(a <= a);
    assert!(a > b);
    assert_eq!(a.partial_cmp(&b), Some(std::cmp::Ordering::Greater));
    assert_eq!(a.cmp(&b), std::cmp::Ordering::Greater);
    assert_eq!(b.partial_cmp(&b), Some(std::cmp::Ordering::Equal));
}

#[test]
fn uint128_conversions() {
    assert_eq!(Uint128::from(5u8), Uint128::new(5));
    assert_eq!(Uint128::from(5u16), Uint128::new(5));
    assert_eq!(Uint128::from(5u32), Uint128::new(5));
    assert_eq!(Uint128::from(5u64), Uint128::new(5));
    assert_eq!(Uint128::from(5usize), Uint128::new(5));
    assert_eq!(Uint128::from(5u128), Uint128::new(5));
    assert_eq!(Uint128::try_from(5i64), Ok(Uint128::new(5)));
    assert_eq!(Uint128::try_from(-5i64), Err(()));
    assert_eq!(Uint128::try_from(-1i8), Err(()));
    assert_eq!(Uint128::try_from(i128::MAX), Ok(Uint128::new(i128::MAX as u128)));
    assert_eq!(u128::from(Uint128::new(9)), 9);
    assert_eq!(Uint128::default(), Uint128::new(0));
}

#[test]
fn dec_constants() {
    assert_eq!(DEC_PRECISION, 18);
    assert_eq!(DEC_ONE, 10i128.pow(18));
    assert_eq!(Dec::zero(), Dec::new(0));
    assert_eq!(Dec::one(), Dec::new(DEC_ONE));
}

#[test]
fn dec_from_integer_displays_as_integer() {
    assert_eq!(Dec::from(3u8), Dec::new(3 * DEC_ONE));
    assert_eq!(Dec::from(3u8).to_string(), "3");
    assert_eq!(Dec::from(-3i8).to_string(), "-3");
    assert_eq!(Dec::from(0u32).to_string(), "0");
    assert_eq!(Dec::from(7usize), Dec::new(7 * DEC_ONE));
    assert_eq!(Dec::from(-7isize), Dec::new(-7 * DEC_ONE));
    assert_eq!(Dec::from(7u16), Dec::from(7i16));
    assert_eq!(Dec::from(7u32), Dec::from(7i32));
}

#[test]
fn dec_parses_whole_and_fraction() {
    assert_eq!(Dec::from_str("3"), Ok(Dec::new(3 * DEC_ONE)));
    assert_eq!(Dec::from_str("+3"), Ok(Dec::new(3 * DEC_ONE)));
    assert_eq!(Dec::from_str("1.5"), Ok(Dec::new(1_500_000_000_000_000_000)));
    assert_eq!(Dec::from_str("-0.5"), Ok(Dec::new(-500_000_000_000_000_000)));
    assert_eq!(Dec::from_str("0.000000000000000001"), Ok(Dec::new(1)));
    assert_eq!(Dec::from_str("007.250"), Ok(Dec::new(7_250_000_000_000_000_000)));
}

#[test]
fn dec_parse_drops_digits_after_the_eighteenth() {
    assert_eq!(Dec::from_str("0.0000000000000000019"), Ok(Dec::new(1)));
    assert_eq!(Dec::from_str("1.000000000000000000999"), Ok(Dec::new(DEC_ONE)));
    assert_eq!(Dec::from_str("-0.1234567890123456789"), Ok(Dec::new(-123_456_789_012_345_678)));
}

#[test]
fn dec_parse_rejects_malformed_text() {
    for text in ["", "-", "+", ".", "1.", ".5", "1.2.3", "1..2", "1e5", " 1", "1 ", "--1", "1.-5", "a"] {
        assert_eq!(Dec::from_str(text), Err(Error::Parse), "{:?}", text);
    }
}

#[test]
fn dec_parse_bounds() {
    assert_eq!(
        Dec::from_str("170141183460469231731.687303715884105727"),
        Ok(Dec::new(i128::MAX))
    );
    assert_eq!(
        Dec::from_str("-170141183460469231731.687303715884105728"),
        Ok(Dec::new(i128::MIN))
    );
    assert_eq!(
        Dec::from_str("170141183460469231731.687303715884105728"),
        Err(Error::Parse)
    );
    assert_eq!(
        Dec::from_str("-170141183460469231731.687303715884105729"),
        Err(Error::Parse)
    );
    assert_eq!(
        Dec::from_str("999999999999999999999999999999999999999999"),
        Err(Error::Parse)
    );
}

#[test]
fn dec_text_round_trip() {
    for raw in [
        0i128,
        1,
        -1,
        10,
        DEC_ONE,
        -DEC_ONE,
        DEC_ONE + 1,
        320_000_000_000_000_000,
        -4_880_000_000_000_000_000,
        123_456_789_012_345_678_901_234_567,
        i128::MAX,
        i128::MIN,
    ] {
        let d = Dec::new(raw);
        assert_eq!(Dec::from_str(&d.to_string()), Ok(d), "{}", raw);
    }
    assert_eq!(Dec::new(i128::MIN).to_string(), "-170141183460469231731.687303715884105728");
    assert_eq!(Dec::new(1).to_string(), "0.000000000000000001");
    assert_eq!(Dec::new(-1_500_000_000_000_000_000).to_string(), "-1.5");
    assert_eq!(Dec::new(100_000_000_000_000_000).to_string(), "0.1");
}

#[test]
fn dec_addition_and_subtraction_are_exact() {
    let a = Dec::from_str("1.5").unwrap();
    let b = Dec::from_str("0.25").unwrap();
    assert_eq!(a.add(b), Ok(Dec::from_str("1.75").unwrap()));
    assert_eq!(a.sub(b), Ok(Dec::from_str("1.25").unwrap()));
    assert_eq!(b.sub(a), Ok(Dec::from_str("-1.25").unwrap()));
    assert_eq!(Dec::new(i128::MAX).add(Dec::new(1)), Err(Error::Overflow));
    assert_eq!(Dec::new(i128::MIN).sub(Dec::new(1)), Err(Error::Overflow));
}

#[test]
fn dec_multiplication_truncates() {
    let third = Dec::new(333_333_333_333_333_333);
    assert_eq!(third.mul(third), Ok(Dec::new(111_111_111_111_111_110)));
    assert_eq!(Dec::new(1).mul(Dec::new(1)), Ok(Dec::new(0)));
    assert_eq!(Dec::new(-1).mul(Dec::new(1)), Ok(Dec::new(0)));
    assert_eq!(
        Dec::new(-1_500_000_000_000_000_001).mul(Dec::one()),
        Ok(Dec::new(-1_500_000_000_000_000_001))
    );
    assert_eq!(Dec::new(-3).mul(Dec::new(500_000_000_000_000_000)), Ok(Dec::new(-1)));
    assert_eq!(Dec::new(i128::MAX).mul(Dec::new(2)), Err(Error::Overflow));
}

#[test]
fn dec_division_divides_raw_values() {
    let six = Dec::from(6u8);
    let three = Dec::from(3u8);
    assert_eq!(six.div(three), Ok(Dec::new(2)));
    assert_eq!(Dec::new(7).div(Dec::new(-2)), Ok(Dec::new(-3)));
    assert_eq!(Dec::new(-7).div(Dec::new(2)), Ok(Dec::new(-3)));
    assert_eq!(Dec::new(-7).div(Dec::new(-2)), Ok(Dec::new(3)));
    assert_eq!(Dec::new(0).div(Dec::new(-2)), Ok(Dec::new(0)));
    assert_eq!(six.div(Dec::zero()), Err(Error::DivideByZero));
    assert_eq!(Dec::new(i128::MIN).div(Dec::new(-1)), Err(Error::Overflow));
}

#[test]
fn dec_sign_and_integer() {
    assert_eq!(Dec::new(-5).sign(), 1);
    assert_eq!(Dec::zero().sign(), -1);
    assert_eq!(Dec::one().sign(), -1);
    assert_eq!(Dec::from_str("2.5").unwrap().integer(), 2);
    assert_eq!(Dec::from_str("-2.5").unwrap().integer(), -3);
    assert_eq!(Dec::from_str("-2").unwrap().integer(), -2);
    assert_eq!(Dec::new(-1).integer(), -1);
    assert_eq!(Dec::zero().integer(), 0);
}

#[test]
fn dec_orders_by_raw_value() {
    assert!(Dec::from_str("-0.5").unwrap() < Dec::zero());
    assert!(Dec::from_str("1.5").unwrap() > Dec::one());
    assert_eq!(Dec::one().partial_cmp(&Dec::zero()), Some(std::cmp::Ordering::Greater));
    assert_eq!(Dec::one().cmp(&Dec::zero()), std::cmp::Ordering::Greater);
    assert_eq!(Dec::new(-1).partial_cmp(&Dec::zero()), Some(std::cmp::Ordering::Less));
}

#[test]
fn values_read_as_decimals() {
    assert_eq!(3u64.into_dec(), Dec::new(3 * DEC_ONE));
    assert_eq!((-3i64).into_dec(), Dec::new(-3 * DEC_ONE));
    assert_eq!(u64::MAX.into_dec(), Dec::new(u64::MAX as i128 * DEC_ONE));
    assert_eq!(7u8.into_dec(), Dec::from(7u8));
    assert_eq!("0.32".into_dec(), Dec::new(320_000_000_000_000_000));
    assert_eq!(String::from("-1").into_dec(), Dec::new(-DEC_ONE));
}
