use stock_calculator::bigint::BigInt;
use stock_calculator::bignat::BigNat;
use stock_calculator::decimal::{parse_decimal, parse_number};
use stock_calculator::rational::Rational;

fn ratio(num: i64, den: u64) -> Rational {
    Rational::new(BigInt::from_i64(num), BigNat::from_u64(den)).unwrap()
}

fn reads(text: &str, num: i64, den: u64) -> bool {
    match parse_number(text) {
        Some(q) => q.equals(&ratio(num, den)),
        None => false,
    }
}

fn to_f64(q: &Rational) -> f64 {
    let mut num = 0.0f64;
    for limb in q.numerator().magnitude.limbs.iter().rev() {
        num = num * 4294967296.0 + (*limb as f64);
    }
    let mut den = 0.0f64;
    for limb in q.denominator().limbs.iter().rev() {
        den = den * 4294967296.0 + (*limb as f64);
    }
    if q.numerator().negative {
        -num / den
    } else {
        num / den
    }
}

#[test]
fn whole_numbers_are_read() {
    assert!(reads("0", 0, 1));
    assert!(reads("7", 7, 1));
    assert!(reads("100", 100, 1));
    assert!(reads("000123", 123, 1));
    assert!(reads("9223372036854775807", i64::MAX, 1));
}

#[test]
fn signs_are_read() {
    assert!(reads("+5", 5, 1));
    assert!(reads("-5", -5, 1));
    assert!(reads("-0", 0, 1));
    assert!(reads("-0.01", -1, 100));
    assert!(parse_number("--5").is_none());
    assert!(parse_number("+-5").is_none());
    assert!(parse_number("5-").is_none());
    assert!(parse_number("+").is_none());
    assert!(parse_number("-").is_none());
}

#[test]
fn fractions_are_read() {
    assert!(reads("1.5", 3, 2));
    assert!(reads("0.1", 1, 10));
    assert!(reads("12.340", 1234, 100));
    assert!(reads(".5", 1, 2));
    assert!(reads("5.", 5, 1));
    assert!(reads("-.25", -1, 4));
    assert!(parse_number(".").is_none());
    assert!(parse_number("-.").is_none());
    assert!(parse_number("1.2.3").is_none());
    assert!(parse_number("1..2").is_none());
}

#[test]
fn exponents_are_read() {
    assert!(reads("1e3", 1000, 1));
    assert!(reads("1E3", 1000, 1));
    assert!(reads("1e+3", 1000, 1));
    assert!(reads("1e-3", 1, 1000));
    assert!(reads("2.5e1", 25, 1));
    assert!(reads("2.5e-1", 1, 4));
    assert!(reads(".5e1", 5, 1));
    assert!(reads("5.e1", 50, 1));
    assert!(reads("1e2", 100, 1));
    assert!(reads("1e0", 1, 1));
    assert!(reads("1e000000000000000000000000000002", 100, 1));
    assert!(parse_number("1e").is_none());
    assert!(parse_number("1e+").is_none());
    assert!(parse_number("1e-").is_none());
    assert!(parse_number("e5").is_none());
    assert!(parse_number(".e5").is_none());
    assert!(parse_number("1e5.0").is_none());
    assert!(parse_number("1e5e5").is_none());
    assert!(parse_number("1e 5").is_none());
}

#[test]
fn exponents_of_any_size_are_read() {
    let big = parse_number("1e1000").unwrap();
    let small = parse_number("1e-1000").unwrap();
    assert!(big.times(&small).equals(&Rational::from_i64(1)));
    assert!(small.gt(&Rational::from_i64(0)));
    assert!(small.lt(&parse_number("1e-999").unwrap()));
    assert!(big.gt(&parse_number("9.99e999").unwrap()));
    assert!(reads("1e0000000000000000000000000000000000000003", 1000, 1));
}

#[test]
fn zero_needs_no_power_of_ten() {
    assert!(reads("0e1000", 0, 1));
    assert!(reads("0e-1000", 0, 1));
    assert!(reads("0e99999999999999999999999999999999", 0, 1));
    assert!(reads("-0.000e-99999999999999999999999999999999", 0, 1));
    assert!(reads("000.e+18446744073709551616", 0, 1));
}

#[test]
fn a_long_mantissa_with_a_compensating_exponent_is_read() {
    let mut text = String::from("0.");
    for _ in 0..1200 {
        text.push('0');
    }
    text.push_str("125e1202");
    assert!(reads(&text, 25, 2));
    let mut text = String::from("75");
    for _ in 0..1200 {
        text.push('0');
    }
    text.push_str("e-1201");
    assert!(reads(&text, 15, 2));
}

#[test]
fn white_space_at_the_ends_is_dropped() {
    assert!(reads("  12  ", 12, 1));
    assert!(reads("\t12\n", 12, 1));
    assert!(reads("\u{2003}7\u{a0}", 7, 1));
    assert!(reads("\u{3000}\u{85}7\u{1680}\u{2028}\u{2029}\u{202f}\u{205f}", 7, 1));
    assert!(parse_number("1 2").is_none());
    assert!(parse_number("- 1").is_none());
    assert!(parse_number("").is_none());
    assert!(parse_number("   ").is_none());
    assert!(parse_number("\u{200b}7").is_none());
}

#[test]
fn parse_decimal_takes_no_white_space() {
    let plain: Vec<char> = "1.5".chars().collect();
    assert!(parse_decimal(&plain).unwrap().equals(&ratio(3, 2)));
    let spaced: Vec<char> = " 1.5".chars().collect();
    assert!(parse_decimal(&spaced).is_none());
    assert!(parse_decimal(&Vec::new()).is_none());
}

#[test]
fn what_is_no_decimal_number_is_refused() {
    assert!(parse_number("abc").is_none());
    assert!(parse_number("12abc").is_none());
    assert!(parse_number("inf").is_none());
    assert!(parse_number("-inf").is_none());
    assert!(parse_number("infinity").is_none());
    assert!(parse_number("NaN").is_none());
    assert!(parse_number("nan").is_none());
    assert!(parse_number("0x10").is_none());
    assert!(parse_number("1_000").is_none());
    assert!(parse_number("1,5").is_none());
    assert!(parse_number("$5").is_none());
    assert!(parse_number("5%").is_none());
    assert!(parse_number("\u{661}").is_none());
}

#[test]
fn long_numbers_are_read_exactly() {
    let a = parse_number("123456789012345678901234567890.123456789012345678901234567890").unwrap();
    let b = parse_number("0.000000000000000000000000000001").unwrap();
    let c = parse_number("123456789012345678901234567890.123456789012345678901234567891").unwrap();
    assert!(a.plus(&b).equals(&c));
    assert!(!a.equals(&c));
    assert!(a.lt(&c));
}

#[test]
fn one_tenth_is_one_tenth() {
    let tenth = parse_number("0.1").unwrap();
    let fifth = parse_number("0.2").unwrap();
    let sum = parse_number("0.3").unwrap();
    assert!(tenth.plus(&fifth).equals(&sum));
    assert!((to_f64(&sum) - 0.3).abs() < 1e-15);
}
