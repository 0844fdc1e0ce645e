//! Exact rational numbers.
//!
//! A [`Rational`] is a fraction of an integer and a positive natural number,
//! both of arbitrary size. Its view is the real number that the fraction
//! denotes. Fractions are not reduced: two fractions of the same value may
//! differ in their parts, and every operation is stated over the value.

use crate::bigint::BigInt;
use crate::bignat::{sign_of, BigNat, Sign};
use vstd::prelude::*;

verus! {

/// The quotient of two integers, as a real number.
pub open spec fn ratio(num: int, den: int) -> real {
    (num as real) / (den as real)
}

/// The sign of the real number `x`.
pub open spec fn real_sign(x: real) -> Sign {
    if x < 0real {
        Sign::Negative
    } else if x == 0real {
        Sign::Zero
    } else {
        Sign::Positive
    }
}

pub proof fn lemma_ratio_whole(n: int)
    ensures
        ratio(n, 1) == n as real,
{
    assert(ratio(n, 1) == n as real) by (nonlinear_arith);
}

pub proof fn lemma_ratio_negated(a: int, b: int)
    requires
        b != 0,
    ensures
        -ratio(a, b) == ratio(-a, b),
{
    assert(-ratio(a, b) == ratio(-a, b)) by (nonlinear_arith)
        requires
            b != 0,
    ;
}

pub proof fn lemma_ratio_sum(a: int, b: int, c: int, d: int)
    requires
        b != 0,
        d != 0,
    ensures
        ratio(a, b) + ratio(c, d) == ratio(a * d + c * b, b * d),
        b * d != 0,
{
    assert(ratio(a, b) + ratio(c, d) == ratio(a * d + c * b, b * d)) by (nonlinear_arith)
        requires
            b != 0,
            d != 0,
    ;
    assert(b * d != 0) by (nonlinear_arith)
        requires
            b != 0,
            d != 0,
    ;
}

pub proof fn lemma_ratio_product(a: int, b: int, c: int, d: int)
    requires
        b != 0,
        d != 0,
    ensures
        ratio(a, b) * ratio(c, d) == ratio(a * c, b * d),
        b * d != 0,
{
    assert(ratio(a, b) * ratio(c, d) == ratio(a * c, b * d)) by (nonlinear_arith)
        requires
            b != 0,
            d != 0,
    ;
    assert(b * d != 0) by (nonlinear_arith)
        requires
            b != 0,
            d != 0,
    ;
}

pub proof fn lemma_ratio_quotient(a: int, b: int, c: int, d: int)
    requires
        b != 0,
        c != 0,
        d != 0,
    ensures
        ratio(a, b) / ratio(c, d) == ratio(a * d, b * c),
        ratio(a, b) / ratio(c, d) == ratio(-(a * d), b * (-c)),
        b * c != 0,
{
    assert(ratio(a, b) / ratio(c, d) == ratio(a * d, b * c)) by (nonlinear_arith)
        requires
            b != 0,
            c != 0,
            d != 0,
    ;
    assert(ratio(a * d, b * c) == ratio(-(a * d), b * (-c))) by (nonlinear_arith)
        requires
            b != 0,
            c != 0,
    ;
    assert(b * c != 0) by (nonlinear_arith)
        requires
            b != 0,
            c != 0,
    ;
}

/// A fraction with a positive denominator has the sign of its numerator.
pub proof fn lemma_ratio_sign(a: int, b: int)
    requires
        b > 0,
    ensures
        real_sign(ratio(a, b)) == sign_of(a),
{
    assert(a < 0 <==> ratio(a, b) < 0real) by (nonlinear_arith)
        requires
            b > 0,
    ;
    assert(a == 0 <==> ratio(a, b) == 0real) by (nonlinear_arith)
        requires
            b > 0,
    ;
}

/// An exact rational number.
#[derive(Debug)]
pub struct Rational {
    num: BigInt,
    den: BigNat,
}

impl View for Rational {
    type V = real;

    open spec fn view(&self) -> real {
        ratio(self.numerator_value(), self.denominator_value())
    }
}

impl Clone for Rational {
    fn clone(&self) -> (r: Self)
        ensures
            r@ == self@,
    {
        proof {
            use_type_invariant(self);
        }
        Rational { num: self.num.clone(), den: self.den.clone() }
    }
}

impl Rational {
    #[verifier::type_invariant]
    spec fn positive_denominator(self) -> bool {
        self.den@ > 0
    }

    /// The numerator of the fraction that holds the number.
    pub closed spec fn numerator_value(self) -> int {
        self.num@
    }

    /// The denominator of the fraction that holds the number.
    pub closed spec fn denominator_value(self) -> int {
        self.den@ as int
    }

    /// The fraction `num / den`, unless `den` is zero.
    pub fn new(num: BigInt, den: BigNat) -> (r: Option<Rational>)
        ensures
            r is None <==> den@ == 0,
            r matches Some(q) ==> q@ == ratio(num@, den@ as int),
    {
        if den.is_zero() {
            None
        } else {
            Some(Rational { num, den })
        }
    }

    /// The integer `x`.
    pub fn from_i64(x: i64) -> (r: Rational)
        ensures
            r@ == x as real,
    {
        proof {
            lemma_ratio_whole(x as int);
        }
        Rational { num: BigInt::from_i64(x), den: BigNat::from_u64(1) }
    }

    /// The numerator of the fraction that holds the number.
    pub fn numerator(&self) -> (r: &BigInt)
        ensures
            r@ == self.numerator_value(),
    {
        &self.num
    }

    /// The denominator of the fraction that holds the number: never zero.
    pub fn denominator(&self) -> (r: &BigNat)
        ensures
            r@ == self.denominator_value(),
            r@ > 0,
    {
        proof {
            use_type_invariant(self);
        }
        &self.den
    }

    /// The sign of `self`.
    pub fn sign(&self) -> (r: Sign)
        ensures
            r == real_sign(self@),
    {
        proof {
            use_type_invariant(self);
            lemma_ratio_sign(self.num@, self.den@ as int);
        }
        self.num.sign()
    }

    /// Whether `self` is zero.
    pub fn is_zero(&self) -> (r: bool)
        ensures
            r == (self@ == 0real),
    {
        match self.sign() {
            Sign::Zero => true,
            _ => false,
        }
    }

    /// Whether `self` is below zero.
    pub fn is_negative(&self) -> (r: bool)
        ensures
            r == (self@ < 0real),
    {
        match self.sign() {
            Sign::Negative => true,
            _ => false,
        }
    }

    /// `-self`.
    pub fn negated(&self) -> (r: Rational)
        ensures
            r@ == -self@,
    {
        proof {
            use_type_invariant(self);
            lemma_ratio_negated(self.num@, self.den@ as int);
        }
        Rational { num: self.num.negated(), den: self.den.clone() }
    }

    /// The sum of `self` and `other`.
    pub fn plus(&self, other: &Rational) -> (r: Rational)
        ensures
            r@ == self@ + other@,
    {
        proof {
            use_type_invariant(self);
            use_type_invariant(other);
            lemma_ratio_sum(self.num@, self.den@ as int, other.num@, other.den@ as int);
        }
        let left = self.num.times_nat(&other.den);
        let right = other.num.times_nat(&self.den);
        Rational { num: left.plus(&right), den: self.den.times(&other.den) }
    }

    /// The difference of `self` and `other`.
    pub fn minus(&self, other: &Rational) -> (r: Rational)
        ensures
            r@ == self@ - other@,
    {
        let opposite = other.negated();
        self.plus(&opposite)
    }

    /// The product of `self` and `other`.
    pub fn times(&self, other: &Rational) -> (r: Rational)
        ensures
            r@ == self@ * other@,
    {
        proof {
            use_type_invariant(self);
            use_type_invariant(other);
            lemma_ratio_product(self.num@, self.den@ as int, other.num@, other.den@ as int);
        }
        Rational { num: self.num.times(&other.num), den: self.den.times(&other.den) }
    }

    /// The quotient of `self` and `other`, which is not zero.
    pub fn divided_by(&self, other: &Rational) -> (r: Rational)
        requires
            other@ != 0real,
        ensures
            r@ == self@ / other@,
    {
        proof {
            use_type_invariant(self);
            use_type_invariant(other);
            lemma_ratio_sign(other.num@, other.den@ as int);
            lemma_ratio_quotient(self.num@, self.den@ as int, other.num@, other.den@ as int);
            let b = self.den@ as int;
            let m = other.num.magnitude@ as int;
            assert(b * m > 0) by (nonlinear_arith)
                requires
                    b > 0,
                    m > 0,
            ;
        }
        let scaled = self.num.times_nat(&other.den);
        let num = if other.num.negative {
            scaled.negated()
        } else {
            scaled
        };
        Rational { num, den: self.den.times(&other.num.magnitude) }
    }

    /// The sign of `self - other`: how the two numbers compare.
    pub fn sign_of_difference(&self, other: &Rational) -> (r: Sign)
        ensures
            r == real_sign(self@ - other@),
    {
        let difference = self.minus(other);
        difference.sign()
    }

    /// Whether `self` is less than `other`.
    pub fn lt(&self, other: &Rational) -> (r: bool)
        ensures
            r == (self@ < other@),
    {
        match self.sign_of_difference(other) {
            Sign::Negative => true,
            _ => false,
        }
    }

    /// Whether `self` is greater than `other`.
    pub fn gt(&self, other: &Rational) -> (r: bool)
        ensures
            r == (self@ > other@),
    {
        match self.sign_of_difference(other) {
            Sign::Positive => true,
            _ => false,
        }
    }

    /// Whether `self` and `other` are the same number.
    pub fn equals(&self, other: &Rational) -> (r: bool)
        ensures
            r == (self@ == other@),
    {
        match self.sign_of_difference(other) {
            Sign::Zero => true,
            _ => false,
        }
    }
}

} // verus!
