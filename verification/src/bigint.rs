//! Integers of arbitrary size, as a sign and a magnitude.
//!
//! Zero may carry either sign: the value alone counts.

use crate::bignat::{sign_of, BigNat, Sign};
use vstd::prelude::*;

verus! {

/// The integer with the given sign and magnitude.
pub open spec fn signed(negative: bool, magnitude: nat) -> int {
    if negative {
        -(magnitude as int)
    } else {
        magnitude as int
    }
}

/// An integer of arbitrary size.
#[derive(Debug)]
pub struct BigInt {
    pub negative: bool,
    pub magnitude: BigNat,
}

impl View for BigInt {
    type V = int;

    open spec fn view(&self) -> int {
        signed(self.negative, self.magnitude@)
    }
}

impl Clone for BigInt {
    fn clone(&self) -> (r: Self)
        ensures
            r@ == self@,
    {
        BigInt { negative: self.negative, magnitude: self.magnitude.clone() }
    }
}

impl BigInt {
    /// Zero.
    pub fn zero() -> (r: BigInt)
        ensures
            r@ == 0,
    {
        BigInt { negative: false, magnitude: BigNat::zero() }
    }

    /// The integer `x`.
    pub fn from_i64(x: i64) -> (r: BigInt)
        ensures
            r@ == x,
    {
        if x >= 0 {
            BigInt { negative: false, magnitude: BigNat::from_u64(x as u64) }
        } else {
            let below: u64 = (-(x + 1)) as u64;
            BigInt { negative: true, magnitude: BigNat::from_u64(below + 1) }
        }
    }

    /// The integer with the given sign and magnitude.
    pub fn from_parts(negative: bool, magnitude: BigNat) -> (r: BigInt)
        ensures
            r@ == signed(negative, magnitude@),
    {
        BigInt { negative, magnitude }
    }

    /// The sign of `self`.
    pub fn sign(&self) -> (r: Sign)
        ensures
            r == sign_of(self@),
    {
        if self.magnitude.is_zero() {
            Sign::Zero
        } else if self.negative {
            Sign::Negative
        } else {
            Sign::Positive
        }
    }

    /// `-self`.
    pub fn negated(&self) -> (r: BigInt)
        ensures
            r@ == -self@,
    {
        BigInt { negative: !self.negative, magnitude: self.magnitude.clone() }
    }

    /// The sum of `self` and `other`.
    pub fn plus(&self, other: &BigInt) -> (r: BigInt)
        ensures
            r@ == self@ + other@,
    {
        if self.negative == other.negative {
            BigInt { negative: self.negative, magnitude: self.magnitude.plus(&other.magnitude) }
        } else {
            match self.magnitude.sign_of_difference(&other.magnitude) {
                Sign::Negative => BigInt {
                    negative: other.negative,
                    magnitude: other.magnitude.minus(&self.magnitude),
                },
                _ => BigInt {
                    negative: self.negative,
                    magnitude: self.magnitude.minus(&other.magnitude),
                },
            }
        }
    }

    /// The difference of `self` and `other`.
    pub fn minus(&self, other: &BigInt) -> (r: BigInt)
        ensures
            r@ == self@ - other@,
    {
        let opposite = other.negated();
        self.plus(&opposite)
    }

    /// The product of `self` and the natural number `other`.
    pub fn times_nat(&self, other: &BigNat) -> (r: BigInt)
        ensures
            r@ == self@ * other@,
    {
        proof {
            let m = self.magnitude@ as int;
            let o = other@ as int;
            assert((-m) * o == -(m * o)) by (nonlinear_arith);
        }
        BigInt { negative: self.negative, magnitude: self.magnitude.times(other) }
    }

    /// The product of `self` and `other`.
    pub fn times(&self, other: &BigInt) -> (r: BigInt)
        ensures
            r@ == self@ * other@,
    {
        proof {
            let m = self.magnitude@ as int;
            let o = other.magnitude@ as int;
            assert((-m) * o == -(m * o)) by (nonlinear_arith);
            assert(m * (-o) == -(m * o)) by (nonlinear_arith);
            assert((-m) * (-o) == m * o) by (nonlinear_arith);
        }
        BigInt {
            negative: self.negative != other.negative,
            magnitude: self.magnitude.times(&other.magnitude),
        }
    }
}

} // verus!
