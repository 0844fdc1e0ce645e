//! Natural numbers of arbitrary size.
//!
//! A [`BigNat`] is a little-endian sequence of 32-bit limbs. Every sequence of
//! limbs is a valid number: zero limbs at the top are allowed and do not
//! change the value, so the type carries no invariant. What the operations
//! hand out carries none of them.

use vstd::prelude::*;

verus! {

/// The weight of limb `i`: 2^(32 i).
pub open spec fn weight(i: nat) -> nat
    decreases i,
{
    if i == 0 {
        1
    } else {
        0x1_0000_0000 * weight((i - 1) as nat)
    }
}

/// Limb `i` of `s`, and zero beyond its end.
pub open spec fn limb_at(s: Seq<u32>, i: int) -> nat {
    if 0 <= i < s.len() {
        s[i] as nat
    } else {
        0
    }
}

/// The number that the `n` lowest limbs of `s` denote.
pub open spec fn low_value(s: Seq<u32>, n: nat) -> nat
    decreases n,
{
    if n == 0 {
        0
    } else {
        low_value(s, (n - 1) as nat) + limb_at(s, n - 1) * weight((n - 1) as nat)
    }
}

/// The number that the limbs `s` denote.
pub open spec fn limbs_value(s: Seq<u32>) -> nat {
    low_value(s, s.len())
}

pub proof fn lemma_weight_positive(i: nat)
    ensures
        weight(i) > 0,
    decreases i,
{
    if i > 0 {
        lemma_weight_positive((i - 1) as nat);
    }
}

/// A product splits over a sum in its left factor.
pub proof fn lemma_split_product(a: int, b: int, w: int)
    ensures
        (a + b) * w == a * w + b * w,
        (a - b) * w == a * w - b * w,
        w * (a + b) == w * a + w * b,
        a * w == w * a,
{
    assert((a + b) * w == a * w + b * w) by (nonlinear_arith);
    assert((a - b) * w == a * w - b * w) by (nonlinear_arith);
    assert(w * (a + b) == w * a + w * b) by (nonlinear_arith);
    assert(a * w == w * a) by (nonlinear_arith);
}

/// Products may be regrouped.
pub proof fn lemma_regroup_product(a: int, b: int, c: int)
    ensures
        (a * b) * c == a * (b * c),
        (a * b) * c == (a * c) * b,
{
    assert((a * b) * c == a * (b * c)) by (nonlinear_arith);
    assert((a * b) * c == (a * c) * b) by (nonlinear_arith);
}

/// The `n` lowest limbs denote a number below the weight of limb `n`.
pub proof fn lemma_low_value_bound(s: Seq<u32>, n: nat)
    ensures
        low_value(s, n) < weight(n),
    decreases n,
{
    if n > 0 {
        let m = (n - 1) as nat;
        lemma_low_value_bound(s, m);
        lemma_weight_positive(m);
        let d = limb_at(s, m as int);
        let w = weight(m);
        assert(d * w <= 0xffff_ffff * w) by (nonlinear_arith)
            requires
                d <= 0xffff_ffff,
                w > 0,
        ;
    }
}

/// Limbs beyond the end of the sequence add nothing.
pub proof fn lemma_low_value_beyond(s: Seq<u32>, n: nat)
    requires
        n >= s.len(),
    ensures
        low_value(s, n) == limbs_value(s),
    decreases n,
{
    if n > s.len() {
        lemma_low_value_beyond(s, (n - 1) as nat);
        assert(limb_at(s, n - 1) == 0);
        assert(limb_at(s, n - 1) * weight((n - 1) as nat) == 0) by (nonlinear_arith)
            requires
                limb_at(s, n - 1) == 0,
        ;
    }
}

/// Sequences that agree on their `n` lowest limbs have the same low value.
pub proof fn lemma_low_value_agree(s: Seq<u32>, t: Seq<u32>, n: nat)
    requires
        forall|j: int| 0 <= j < n ==> limb_at(s, j) == limb_at(t, j),
    ensures
        low_value(s, n) == low_value(t, n),
    decreases n,
{
    if n > 0 {
        lemma_low_value_agree(s, t, (n - 1) as nat);
    }
}

/// Appending a limb adds it at the weight of its index.
pub proof fn lemma_value_push(s: Seq<u32>, x: u32)
    ensures
        limbs_value(s.push(x)) == limbs_value(s) + x * weight(s.len()),
        forall|n: nat| n <= s.len() ==> low_value(s.push(x), n) == low_value(s, n),
{
    let t = s.push(x);
    assert forall|n: nat| n <= s.len() implies low_value(t, n) == low_value(s, n) by {
        assert forall|j: int| 0 <= j < n implies limb_at(t, j) == limb_at(s, j) by {}
        lemma_low_value_agree(t, s, n);
    }
    assert(limb_at(t, s.len() as int) == x);
}

/// A zero limb put below the others multiplies the value by the radix.
pub proof fn lemma_value_insert_zero(s: Seq<u32>, n: nat)
    ensures
        low_value(s.insert(0, 0u32), n + 1) == 0x1_0000_0000 * low_value(s, n),
    decreases n,
{
    let t = s.insert(0, 0u32);
    if n == 0 {
        reveal_with_fuel(low_value, 2);
        assert(limb_at(t, 0) == 0);
        assert(limb_at(t, 0) * weight(0) == 0);
    } else {
        let m = (n - 1) as nat;
        lemma_value_insert_zero(s, m);
        assert(limb_at(t, n as int) == limb_at(s, m as int));
        let d = limb_at(s, m as int) as int;
        assert(d * weight(n) == 0x1_0000_0000 * (d * weight(m))) by (nonlinear_arith)
            requires
                weight(n) == 0x1_0000_0000 * weight(m),
        ;
    }
}

/// Whether `s` has no zero limb at the top.
pub open spec fn is_trimmed(s: Seq<u32>) -> bool {
    s.len() == 0 || s.last() != 0
}

/// Zero limbs at the top add nothing.
pub proof fn lemma_low_value_zero_top(s: Seq<u32>, n: nat, m: nat)
    requires
        n <= m,
        forall|j: int| n <= j < m ==> limb_at(s, j) == 0,
    ensures
        low_value(s, m) == low_value(s, n),
    decreases m,
{
    if n < m {
        lemma_low_value_zero_top(s, n, (m - 1) as nat);
        assert(limb_at(s, m - 1) * weight((m - 1) as nat) == 0) by (nonlinear_arith)
            requires
                limb_at(s, m - 1) == 0,
        ;
    }
}

/// The sign of a number.
#[derive(Clone, Copy, Debug, PartialEq, Eq, Structural)]
pub enum Sign {
    Negative,
    Zero,
    Positive,
}

/// The sign of `x`.
pub open spec fn sign_of(x: int) -> Sign {
    if x < 0 {
        Sign::Negative
    } else if x == 0 {
        Sign::Zero
    } else {
        Sign::Positive
    }
}

/// A natural number of arbitrary size, as 32-bit limbs, lowest first.
#[derive(Debug)]
pub struct BigNat {
    pub limbs: Vec<u32>,
}

impl View for BigNat {
    type V = nat;

    open spec fn view(&self) -> nat {
        limbs_value(self.limbs@)
    }
}

impl Clone for BigNat {
    fn clone(&self) -> (r: Self)
        ensures
            r@ == self@,
            r.limbs@ == self.limbs@,
    {
        BigNat { limbs: self.limbs.clone() }
    }
}

/// The number of limbs of `limbs` up to the highest that is not zero.
fn count_significant(limbs: &Vec<u32>) -> (n: usize)
    ensures
        n <= limbs@.len(),
        n > 0 ==> limbs@[n - 1] != 0,
        forall|j: int| n <= j < limbs@.len() ==> limbs@[j] == 0,
        low_value(limbs@, n as nat) == limbs_value(limbs@),
{
    let mut n: usize = limbs.len();
    while n > 0 && limbs[n - 1] == 0
        invariant
            n <= limbs@.len(),
            forall|j: int| n <= j < limbs@.len() ==> limbs@[j] == 0,
        decreases n,
    {
        n -= 1;
    }
    proof {
        lemma_low_value_zero_top(limbs@, n as nat, limbs@.len());
    }
    n
}

/// `limbs` without the zero limbs at the top.
fn without_top_zeros(limbs: Vec<u32>) -> (r: Vec<u32>)
    ensures
        limbs_value(r@) == limbs_value(limbs@),
        is_trimmed(r@),
{
    let n = count_significant(&limbs);
    let mut out = limbs;
    out.truncate(n);
    proof {
        assert forall|j: int| 0 <= j < n implies limb_at(out@, j) == limb_at(limbs@, j) by {}
        lemma_low_value_agree(out@, limbs@, n as nat);
    }
    out
}

impl BigNat {
    /// Zero.
    pub fn zero() -> (r: BigNat)
        ensures
            r@ == 0,
            is_trimmed(r.limbs@),
    {
        BigNat { limbs: Vec::new() }
    }

    /// The number `x`.
    pub fn from_u64(x: u64) -> (r: BigNat)
        ensures
            r@ == x,
            is_trimmed(r.limbs@),
    {
        let low: u32 = (x % 0x1_0000_0000) as u32;
        let high: u32 = (x / 0x1_0000_0000) as u32;
        let mut limbs: Vec<u32> = Vec::new();
        limbs.push(low);
        let ghost one = limbs@;
        limbs.push(high);
        proof {
            let none = Seq::<u32>::empty();
            assert(one =~= none.push(low));
            assert(limbs@ =~= one.push(high));
            lemma_value_push(none, low);
            lemma_value_push(one, high);
            assert(limbs_value(none) == 0);
            assert(weight(1) == 0x1_0000_0000) by {
                reveal_with_fuel(weight, 2);
            }
            assert(low * weight(0) == low) by (nonlinear_arith)
                requires
                    weight(0) == 1,
            ;
            assert(high * weight(1) == high * 0x1_0000_0000) by (nonlinear_arith)
                requires
                    weight(1) == 0x1_0000_0000,
            ;
        }
        BigNat { limbs: without_top_zeros(limbs) }
    }

    /// Limb `i`, and zero beyond the highest limb.
    pub fn limb(&self, i: usize) -> (r: u32)
        ensures
            r == limb_at(self.limbs@, i as int),
    {
        if i < self.limbs.len() {
            self.limbs[i]
        } else {
            0
        }
    }

    /// The number of limbs that either operand has at most.
    fn span(&self, other: &BigNat) -> (n: usize)
        ensures
            n >= self.limbs@.len(),
            n >= other.limbs@.len(),
            n == self.limbs@.len() || n == other.limbs@.len(),
    {
        if self.limbs.len() >= other.limbs.len() {
            self.limbs.len()
        } else {
            other.limbs.len()
        }
    }

    /// The sum of `self` and `other`.
    pub fn plus(&self, other: &BigNat) -> (r: BigNat)
        ensures
            r@ == self@ + other@,
            is_trimmed(r.limbs@),
    {
        let n = self.span(other);
        let mut out: Vec<u32> = Vec::new();
        let mut carry: u64 = 0;
        let mut i: usize = 0;
        while i < n
            invariant
                i <= n,
                out@.len() == i,
                carry <= 1,
                limbs_value(out@) + carry * weight(i as nat) == low_value(self.limbs@, i as nat)
                    + low_value(other.limbs@, i as nat),
            decreases n - i,
        {
            let x: u64 = self.limb(i) as u64;
            let y: u64 = other.limb(i) as u64;
            let sum: u64 = x + y + carry;
            let digit: u32 = (sum % 0x1_0000_0000) as u32;
            let next: u64 = sum / 0x1_0000_0000;
            proof {
                lemma_value_push(out@, digit);
                let w = weight(i as nat) as int;
                lemma_split_product(digit as int, next * 0x1_0000_0000, w);
                lemma_split_product(x + y, carry as int, w);
                lemma_split_product(x as int, y as int, w);
                lemma_regroup_product(next as int, 0x1_0000_0000, w);
                assert(0x1_0000_0000 * w == weight((i + 1) as nat));
            }
            out.push(digit);
            carry = next;
            i += 1;
        }
        proof {
            lemma_low_value_beyond(self.limbs@, n as nat);
            lemma_low_value_beyond(other.limbs@, n as nat);
        }
        if carry > 0 {
            proof {
                lemma_value_push(out@, 1u32);
            }
            out.push(1);
        }
        BigNat { limbs: without_top_zeros(out) }
    }

    /// The sign of `self - other`: how the two numbers compare.
    pub fn sign_of_difference(&self, other: &BigNat) -> (r: Sign)
        ensures
            r == sign_of(self@ - other@),
    {
        let n = self.span(other);
        let mut i: usize = n;
        proof {
            lemma_low_value_beyond(self.limbs@, n as nat);
            lemma_low_value_beyond(other.limbs@, n as nat);
        }
        while i > 0
            invariant
                i <= n,
                self@ - low_value(self.limbs@, i as nat) == other@ - low_value(
                    other.limbs@,
                    i as nat,
                ),
            decreases i,
        {
            let x: u32 = self.limb(i - 1);
            let y: u32 = other.limb(i - 1);
            if x != y {
                proof {
                    let m = (i - 1) as nat;
                    let w = weight(m) as int;
                    lemma_low_value_bound(self.limbs@, m);
                    lemma_low_value_bound(other.limbs@, m);
                    if x < y {
                        assert(x * w + w <= y * w) by (nonlinear_arith)
                            requires
                                x + 1 <= y,
                                w > 0,
                        ;
                    } else {
                        assert(y * w + w <= x * w) by (nonlinear_arith)
                            requires
                                y + 1 <= x,
                                w > 0,
                        ;
                    }
                }
                if x < y {
                    return Sign::Negative;
                } else {
                    return Sign::Positive;
                }
            }
            i -= 1;
        }
        Sign::Zero
    }

    /// Whether `self` is zero.
    pub fn is_zero(&self) -> (r: bool)
        ensures
            r == (self@ == 0),
    {
        let zero = BigNat::zero();
        match self.sign_of_difference(&zero) {
            Sign::Zero => true,
            _ => false,
        }
    }

    /// Whether `self` is less than `other`.
    pub fn lt(&self, other: &BigNat) -> (r: bool)
        ensures
            r == (self@ < other@),
    {
        match self.sign_of_difference(other) {
            Sign::Negative => true,
            _ => false,
        }
    }

    /// The number of limbs up to the highest that is not zero: the limbs
    /// below that index denote the number, and those from it on are zero.
    pub fn significant_limbs(&self) -> (n: usize)
        ensures
            n <= self.limbs@.len(),
            n > 0 ==> self.limbs@[n - 1] != 0,
            forall|j: int| n <= j < self.limbs@.len() ==> self.limbs@[j] == 0,
            low_value(self.limbs@, n as nat) == self@,
    {
        count_significant(&self.limbs)
    }

    /// The difference of `self` and `other`, which is not larger.
    pub fn minus(&self, other: &BigNat) -> (r: BigNat)
        requires
            self@ >= other@,
        ensures
            r@ == self@ - other@,
            is_trimmed(r.limbs@),
    {
        let n = self.span(other);
        let mut out: Vec<u32> = Vec::new();
        let mut borrow: u64 = 0;
        let mut i: usize = 0;
        while i < n
            invariant
                i <= n,
                out@.len() == i,
                borrow <= 1,
                limbs_value(out@) - borrow * weight(i as nat) == low_value(self.limbs@, i as nat)
                    - low_value(other.limbs@, i as nat),
            decreases n - i,
        {
            let x: u64 = self.limb(i) as u64;
            let taken: u64 = other.limb(i) as u64 + borrow;
            let digit: u32;
            let next: u64;
            if x >= taken {
                digit = (x - taken) as u32;
                next = 0;
            } else {
                digit = (x + 0x1_0000_0000 - taken) as u32;
                next = 1;
            }
            proof {
                lemma_value_push(out@, digit);
                let w = weight(i as nat) as int;
                let y = limb_at(other.limbs@, i as int) as int;
                assert(digit - next * 0x1_0000_0000 == x - y - borrow);
                assert(digit * w - next * (0x1_0000_0000 * w) == x * w - y * w - borrow * w)
                    by (nonlinear_arith)
                    requires
                        digit - next * 0x1_0000_0000 == x - y - borrow,
                ;
                assert(0x1_0000_0000 * w == weight((i + 1) as nat));
            }
            out.push(digit);
            borrow = next;
            i += 1;
        }
        proof {
            lemma_low_value_beyond(self.limbs@, n as nat);
            lemma_low_value_beyond(other.limbs@, n as nat);
            lemma_low_value_bound(out@, n as nat);
            assert(borrow * weight(n as nat) == 0 || borrow * weight(n as nat) == weight(n as nat))
                by (nonlinear_arith)
                requires
                    borrow == 0 || borrow == 1,
            ;
        }
        BigNat { limbs: without_top_zeros(out) }
    }

    /// `self` times the limb `m`, plus the limb `a`.
    pub fn scaled_plus(&self, m: u32, a: u32) -> (r: BigNat)
        ensures
            r@ == self@ * m + a,
            is_trimmed(r.limbs@),
    {
        let n = self.limbs.len();
        let mut out: Vec<u32> = Vec::new();
        let mut carry: u64 = a as u64;
        let mut i: usize = 0;
        proof {
            assert(carry * weight(0) == a) by (nonlinear_arith)
                requires
                    weight(0) == 1,
                    carry == a,
            ;
            assert(low_value(self.limbs@, 0) * m == 0) by (nonlinear_arith)
                requires
                    low_value(self.limbs@, 0) == 0,
            ;
        }
        while i < n
            invariant
                i <= n,
                n == self.limbs@.len(),
                out@.len() == i,
                carry <= 0xffff_ffff,
                limbs_value(out@) + carry * weight(i as nat) == low_value(self.limbs@, i as nat)
                    * m + a,
            decreases n - i,
        {
            let x: u64 = self.limbs[i] as u64;
            assert(x * m <= 0xffff_ffff * 0xffff_ffff) by (nonlinear_arith)
                requires
                    x <= 0xffff_ffff,
                    m <= 0xffff_ffff,
            ;
            let total: u64 = x * (m as u64) + carry;
            let digit: u32 = (total % 0x1_0000_0000) as u32;
            let next: u64 = total / 0x1_0000_0000;
            proof {
                lemma_value_push(out@, digit);
                let w = weight(i as nat) as int;
                let low = low_value(self.limbs@, i as nat) as int;
                assert(digit * w + next * (0x1_0000_0000 * w) == (x * w) * m + carry * w)
                    by (nonlinear_arith)
                    requires
                        digit + next * 0x1_0000_0000 == x * m + carry,
                ;
                assert((low + x * w) * m == low * m + (x * w) * m) by (nonlinear_arith);
                assert(0x1_0000_0000 * w == weight((i + 1) as nat));
                assert(limb_at(self.limbs@, i as int) == x);
            }
            out.push(digit);
            carry = next;
            i += 1;
        }
        proof {
            lemma_value_push(out@, carry as u32);
        }
        out.push(carry as u32);
        BigNat { limbs: without_top_zeros(out) }
    }

    /// `self` times the radix 2^32.
    pub fn times_radix(&self) -> (r: BigNat)
        ensures
            r@ == self@ * 0x1_0000_0000,
            is_trimmed(r.limbs@),
    {
        let mut limbs = self.limbs.clone();
        limbs.insert(0, 0);
        proof {
            lemma_value_insert_zero(self.limbs@, self.limbs@.len());
        }
        BigNat { limbs: without_top_zeros(limbs) }
    }

    /// The product of `self` and `other`.
    pub fn times(&self, other: &BigNat) -> (r: BigNat)
        ensures
            r@ == self@ * other@,
            is_trimmed(r.limbs@),
    {
        let mut acc = BigNat::zero();
        let mut i: usize = self.limbs.len();
        proof {
            assert(acc@ * weight(i as nat) == 0) by (nonlinear_arith)
                requires
                    acc@ == 0,
            ;
        }
        while i > 0
            invariant
                i <= self.limbs@.len(),
                is_trimmed(acc.limbs@),
                acc@ * weight(i as nat) + low_value(self.limbs@, i as nat) * other@ == self@
                    * other@,
            decreases i,
        {
            let ghost before = acc@ as int;
            i -= 1;
            let d: u32 = self.limbs[i];
            let raised = acc.times_radix();
            let part = other.scaled_plus(d, 0);
            acc = raised.plus(&part);
            proof {
                let w = weight(i as nat) as int;
                let wi = weight((i + 1) as nat) as int;
                let low = low_value(self.limbs@, i as nat) as int;
                let lowi = low_value(self.limbs@, (i + 1) as nat) as int;
                let o = other@ as int;
                let now = acc@ as int;
                let total = self@ * other@;
                assert(limb_at(self.limbs@, i as int) == d);
                assert(now * w + low * o == total) by (nonlinear_arith)
                    requires
                        now == before * 0x1_0000_0000 + o * d,
                        wi == 0x1_0000_0000 * w,
                        lowi == low + d * w,
                        before * wi + lowi * o == total,
                ;
            }
        }
        proof {
            assert(acc@ * weight(0) == acc@) by (nonlinear_arith)
                requires
                    weight(0) == 1,
            ;
            assert(low_value(self.limbs@, 0) * other@ == 0) by (nonlinear_arith)
                requires
                    low_value(self.limbs@, 0) == 0,
            ;
        }
        acc
    }
}

} // verus!
