use stock_calculator::bigint::BigInt;
use stock_calculator::bignat::{BigNat, Sign};
use stock_calculator::rational::Rational;

fn natural(x: u64) -> BigNat {
    BigNat::from_u64(x)
}

fn same(a: &BigNat, b: &BigNat) -> bool {
    a.sign_of_difference(b) == Sign::Zero
}

fn fraction(num: i64, den: u64) -> Rational {
    Rational::new(BigInt::from_i64(num), BigNat::from_u64(den)).unwrap()
}

#[test]
fn from_u64_splits_into_two_limbs() {
    assert_eq!(natural(0x1_0000_0002).limbs, vec![2, 1]);
    assert_eq!(natural(u64::MAX).limbs, vec![0xffff_ffff, 0xffff_ffff]);
    assert!(natural(0).is_zero());
    assert!(!natural(1).is_zero());
}

#[test]
fn limb_is_zero_beyond_the_end() {
    let n = natural(7);
    assert_eq!(n.limb(0), 7);
    assert_eq!(n.limb(1), 0);
    assert_eq!(n.limb(5), 0);
}

#[test]
fn plus_carries_into_a_new_limb() {
    let sum = natural(u64::MAX).plus(&natural(1));
    assert_eq!(sum.limbs, vec![0, 0, 1]);
    assert!(same(&natural(5).plus(&natural(7)), &natural(12)));
}

#[test]
fn minus_borrows_across_limbs() {
    let big = BigNat { limbs: vec![0, 0, 1] };
    let diff = big.minus(&natural(1));
    assert!(same(&diff, &natural(u64::MAX)));
    assert!(natural(12).minus(&natural(12)).is_zero());
    assert!(same(&natural(1000).minus(&natural(1)), &natural(999)));
}

#[test]
fn leading_zero_limbs_do_not_change_the_value() {
    let padded = BigNat { limbs: vec![5, 0, 0, 0] };
    assert!(same(&padded, &natural(5)));
    assert_eq!(padded.sign_of_difference(&natural(6)), Sign::Negative);
    assert_eq!(natural(6).sign_of_difference(&padded), Sign::Positive);
    assert!(BigNat { limbs: vec![0, 0] }.is_zero());
}

#[test]
fn times_gives_exact_products() {
    // (2^64 - 1)^2 = 2^128 - 2^65 + 1
    let square = natural(u64::MAX).times(&natural(u64::MAX));
    let expected = BigNat { limbs: vec![1, 0, 0xffff_fffe, 0xffff_ffff] };
    assert!(same(&square, &expected));
    assert!(same(&natural(123_456_789).times(&natural(987_654_321)), &natural(121_932_631_112_635_269)));
    assert!(natural(0).times(&natural(77)).is_zero());
    assert!(natural(77).times(&BigNat::zero()).is_zero());
}

#[test]
fn scaled_plus_and_times_radix() {
    assert!(same(&natural(123).scaled_plus(10, 4), &natural(1234)));
    assert!(same(&natural(0xffff_ffff).scaled_plus(0xffff_ffff, 0xffff_ffff), &natural(0xffff_ffff_0000_0000)));
    assert!(same(&natural(3).times_radix(), &natural(3 << 32)));
}

#[test]
fn comparison_looks_at_the_highest_limb_first() {
    assert_eq!(natural(1 << 40).sign_of_difference(&natural(0xffff_ffff)), Sign::Positive);
    assert_eq!(natural(0xffff_ffff).sign_of_difference(&natural(1 << 40)), Sign::Negative);
    assert_eq!(natural(9).sign_of_difference(&natural(9)), Sign::Zero);
}

#[test]
fn bigint_covers_the_whole_of_i64() {
    let least = BigInt::from_i64(i64::MIN);
    assert!(least.negative);
    assert!(same(&least.magnitude, &natural(1 << 63)));
    let most = BigInt::from_i64(i64::MAX);
    assert_eq!(least.plus(&most).sign(), Sign::Negative);
    assert_eq!(least.plus(&most).plus(&BigInt::from_i64(1)).sign(), Sign::Zero);
}

#[test]
fn bigint_sums_of_mixed_signs() {
    let r = BigInt::from_i64(5).plus(&BigInt::from_i64(-8));
    assert!(r.negative);
    assert!(same(&r.magnitude, &natural(3)));
    let r = BigInt::from_i64(-5).plus(&BigInt::from_i64(8));
    assert!(!r.negative);
    assert!(same(&r.magnitude, &natural(3)));
    assert_eq!(BigInt::from_i64(-5).minus(&BigInt::from_i64(-5)).sign(), Sign::Zero);
    assert_eq!(BigInt::from_i64(-5).times(&BigInt::from_i64(-5)).sign(), Sign::Positive);
    assert_eq!(BigInt::from_i64(-5).times(&BigInt::from_i64(5)).sign(), Sign::Negative);
    assert_eq!(BigInt::from_i64(-5).times_nat(&natural(0)).sign(), Sign::Zero);
    assert_eq!(BigInt::from_parts(true, BigNat::zero()).sign(), Sign::Zero);
    assert_eq!(BigInt::zero().negated().sign(), Sign::Zero);
}

#[test]
fn rational_has_no_zero_denominator() {
    assert!(Rational::new(BigInt::from_i64(1), BigNat::zero()).is_none());
    assert!(Rational::new(BigInt::from_i64(1), BigNat { limbs: vec![0, 0] }).is_none());
    let half = fraction(1, 2);
    assert!(!half.denominator().is_zero());
    assert_eq!(half.numerator().sign(), Sign::Positive);
}

#[test]
fn rational_arithmetic_is_exact() {
    assert!(fraction(1, 3).plus(&fraction(1, 6)).equals(&fraction(1, 2)));
    assert!(fraction(1, 3).minus(&fraction(1, 2)).equals(&fraction(-1, 6)));
    assert!(fraction(2, 3).times(&fraction(-3, 4)).equals(&fraction(-1, 2)));
    assert!(fraction(2, 3).divided_by(&fraction(-4, 9)).equals(&fraction(-3, 2)));
    assert!(fraction(1, 10).plus(&fraction(2, 10)).equals(&fraction(3, 10)));
    let third = Rational::from_i64(1).divided_by(&Rational::from_i64(3));
    assert!(third.times(&Rational::from_i64(3)).equals(&Rational::from_i64(1)));
}

#[test]
fn rational_equality_ignores_the_form_of_the_fraction() {
    assert!(fraction(2, 4).equals(&fraction(1, 2)));
    assert!(fraction(-6, 3).equals(&Rational::from_i64(-2)));
    assert!(!fraction(1, 3).equals(&fraction(333_333, 1_000_000)));
    assert!(fraction(1, 2).clone().equals(&fraction(1, 2)));
}

#[test]
fn rational_order_and_sign() {
    assert!(fraction(1, 3).lt(&fraction(1, 2)));
    assert!(!fraction(1, 2).lt(&fraction(1, 2)));
    assert!(fraction(-1, 2).lt(&fraction(-1, 3)));
    assert!(fraction(1, 2).gt(&fraction(-7, 1)));
    assert!(!fraction(1, 2).gt(&fraction(2, 4)));
    assert_eq!(fraction(1, 3).sign_of_difference(&fraction(1, 2)), Sign::Negative);
    assert_eq!(fraction(-3, 7).sign(), Sign::Negative);
    assert_eq!(fraction(0, 7).sign(), Sign::Zero);
    assert!(fraction(0, 7).is_zero());
    assert!(fraction(0, 7).negated().is_zero());
    assert!(fraction(-3, 7).is_negative());
    assert!(!fraction(3, 7).is_negative());
    assert!(fraction(3, 7).negated().is_negative());
}

#[test]
fn results_carry_no_zero_limbs_at_the_top() {
    assert_eq!(natural(0).limbs, Vec::<u32>::new());
    assert_eq!(natural(7).limbs, vec![7]);
    assert_eq!(natural(7).plus(&natural(8)).limbs, vec![15]);
    assert_eq!(natural(7).scaled_plus(10, 3).limbs, vec![73]);
    assert_eq!(natural(7).times(&natural(8)).limbs, vec![56]);
    assert_eq!(natural(1 << 40).minus(&natural((1 << 40) - 5)).limbs, vec![5]);
    assert_eq!(natural(9).minus(&natural(9)).limbs, Vec::<u32>::new());
    assert_eq!(natural(3).times_radix().limbs, vec![0, 3]);
    assert_eq!(natural(0).times_radix().limbs, Vec::<u32>::new());
    let padded = BigNat { limbs: vec![5, 0, 0] };
    assert_eq!(padded.plus(&BigNat { limbs: vec![0, 0, 0, 0] }).limbs, vec![5]);
    assert_eq!(padded.times(&padded).limbs, vec![25]);
}

#[test]
fn significant_limbs_leaves_out_the_zeros_at_the_top() {
    assert_eq!(BigNat { limbs: vec![5, 0, 0] }.significant_limbs(), 1);
    assert_eq!(BigNat { limbs: vec![0, 0, 0] }.significant_limbs(), 0);
    assert_eq!(BigNat { limbs: vec![] }.significant_limbs(), 0);
    assert_eq!(BigNat { limbs: vec![0, 0, 1] }.significant_limbs(), 3);
    assert_eq!(BigNat { limbs: vec![0, 7, 0, 1, 0] }.significant_limbs(), 4);
    assert_eq!(natural(u64::MAX).significant_limbs(), 2);
}

#[test]
fn lt_orders_naturals() {
    assert!(natural(3).lt(&natural(4)));
    assert!(!natural(4).lt(&natural(4)));
    assert!(!natural(5).lt(&natural(4)));
    assert!(BigNat { limbs: vec![9, 0, 0] }.lt(&natural(10)));
    assert!(natural(0xffff_ffff).lt(&natural(1 << 32)));
}
