//! Decimal text to exact numbers.
//!
//! A number is written as
//!
//! ```text
//! Number   ::= Sign? Mantissa Exponent?
//! Mantissa ::= Digit+ | Digit+ '.' Digit* | Digit* '.' Digit+
//! Exponent ::= ('e' | 'E') Sign? Digit+
//! Sign     ::= '+' | '-'
//! ```
//!
//! with white space allowed before and after it. Every such text is a
//! number, however long its mantissa and however large its exponent, and the
//! number read is exactly the one written: nothing is rounded.

use crate::bigint::BigInt;
use crate::bignat::{BigNat, Sign};
use crate::rational::{lemma_ratio_negated, ratio, Rational};
use vstd::prelude::*;
use vstd::std_specs::iter::IteratorSpec;

verus! {

/// Whether `c` is white space, as Unicode defines it.
pub open spec fn is_space(c: char) -> bool {
    let u = c as u32;
    ||| 0x09 <= u <= 0x0D
    ||| u == 0x20
    ||| u == 0x85
    ||| u == 0xA0
    ||| u == 0x1680
    ||| 0x2000 <= u <= 0x200A
    ||| u == 0x2028
    ||| u == 0x2029
    ||| u == 0x202F
    ||| u == 0x205F
    ||| u == 0x3000
}

/// Whether `c` is one of the digits `0` to `9`.
pub open spec fn is_digit(c: char) -> bool {
    0x30 <= c as u32 <= 0x39
}

/// The number that the digit `c` stands for.
pub open spec fn digit_of(c: char) -> nat {
    (c as u32 - 0x30) as nat
}

pub open spec fn is_sign(c: char) -> bool {
    c == '+' || c == '-'
}

pub open spec fn is_exponent_mark(c: char) -> bool {
    c == 'e' || c == 'E'
}

/// Where the run of white space that starts at `from` ends.
pub open spec fn spaces_end(s: Seq<char>, from: int) -> int
    decreases s.len() - from,
{
    if 0 <= from < s.len() && is_space(s[from]) {
        spaces_end(s, from + 1)
    } else {
        from
    }
}

/// Where the run of white space that ends before `to` starts.
pub open spec fn spaces_start(s: Seq<char>, to: int) -> int
    decreases to,
{
    if 0 < to <= s.len() && is_space(s[to - 1]) {
        spaces_start(s, to - 1)
    } else {
        to
    }
}

/// `s` without the white space at its two ends.
pub open spec fn trimmed(s: Seq<char>) -> Seq<char> {
    let from = spaces_end(s, 0);
    let to = spaces_start(s, s.len() as int);
    if from < to {
        s.subrange(from, to)
    } else {
        Seq::empty()
    }
}

/// Where the run of digits that starts at `from` ends.
pub open spec fn digits_end(s: Seq<char>, from: int) -> int
    decreases s.len() - from,
{
    if 0 <= from < s.len() && is_digit(s[from]) {
        digits_end(s, from + 1)
    } else {
        from
    }
}

/// The number that the digits `s` denote, the first digit counting most.
pub open spec fn digits_value(s: Seq<char>) -> nat
    decreases s.len(),
{
    if s.len() == 0 {
        0
    } else {
        10 * digits_value(s.drop_last()) + digit_of(s.last())
    }
}

/// Ten to the power `n`.
pub open spec fn pow10(n: nat) -> nat
    decreases n,
{
    if n == 0 {
        1
    } else {
        10 * pow10((n - 1) as nat)
    }
}

/// A number in decimal notation: `mantissa` times ten to the `exponent`,
/// below zero where `negative`.
pub struct Decimal {
    pub negative: bool,
    pub mantissa: nat,
    pub exponent: int,
}

/// The real number that `d` denotes.
pub open spec fn decimal_value(d: Decimal) -> real {
    let magnitude = if d.exponent >= 0 {
        ratio((d.mantissa * pow10(d.exponent as nat)) as int, 1)
    } else {
        ratio(d.mantissa as int, pow10((-d.exponent) as nat) as int)
    };
    if d.negative {
        -magnitude
    } else {
        magnitude
    }
}

/// The exponent written in `s` from `at` to the end: zero where nothing is
/// written there.
pub open spec fn read_exponent(s: Seq<char>, at: int) -> Option<int> {
    if at >= s.len() {
        Some(0)
    } else if !is_exponent_mark(s[at]) {
        None
    } else {
        let signed = at + 1 < s.len() && is_sign(s[at + 1]);
        let from = if signed {
            at + 2
        } else {
            at + 1
        };
        let to = digits_end(s, from);
        let magnitude = digits_value(s.subrange(from, to));
        if to == from || to < s.len() {
            None
        } else if signed && s[at + 1] == '-' {
            Some(-(magnitude as int))
        } else {
            Some(magnitude as int)
        }
    }
}

/// The number written in `s`, which is all of `s`.
pub open spec fn read_decimal(s: Seq<char>) -> Option<Decimal> {
    let signed = s.len() > 0 && is_sign(s[0]);
    let whole_from = if signed {
        1int
    } else {
        0int
    };
    let whole_to = digits_end(s, whole_from);
    let fraction_from = if whole_to < s.len() && s[whole_to] == '.' {
        whole_to + 1
    } else {
        whole_to
    };
    let fraction_to = digits_end(s, fraction_from);
    let digits = s.subrange(whole_from, whole_to) + s.subrange(fraction_from, fraction_to);
    if digits.len() == 0 {
        None
    } else {
        match read_exponent(s, fraction_to) {
            None => None,
            Some(e) => Some(
                Decimal {
                    negative: signed && s[0] == '-',
                    mantissa: digits_value(digits),
                    exponent: e - (fraction_to - fraction_from),
                },
            ),
        }
    }
}

/// The number written in `text`, white space at its ends aside.
pub open spec fn number_of(text: Seq<char>) -> Option<real> {
    match read_decimal(trimmed(text)) {
        Some(d) => Some(decimal_value(d)),
        None => None,
    }
}

/// The value of a number that may be missing.
pub open spec fn value_of(r: Option<Rational>) -> Option<real> {
    match r {
        Some(q) => Some(q@),
        None => None,
    }
}

pub proof fn lemma_pow10_positive(n: nat)
    ensures
        pow10(n) > 0,
    decreases n,
{
    if n > 0 {
        lemma_pow10_positive((n - 1) as nat);
    }
}

/// A run of digits lies within the text, holds digits only and ends before
/// a character that is no digit.
pub proof fn lemma_digits_run(s: Seq<char>, from: int)
    requires
        0 <= from <= s.len(),
    ensures
        from <= digits_end(s, from) <= s.len(),
        forall|j: int| from <= j < digits_end(s, from) ==> is_digit(s[j]),
        digits_end(s, from) < s.len() ==> !is_digit(s[digits_end(s, from)]),
    decreases s.len() - from,
{
    if from < s.len() && is_digit(s[from]) {
        lemma_digits_run(s, from + 1);
    }
}

/// A number without digits other than zero is zero, whatever its exponent.
pub proof fn lemma_zero_mantissa(d: Decimal)
    requires
        d.mantissa == 0,
    ensures
        decimal_value(d) == 0real,
{
    if d.exponent >= 0 {
        let p = pow10(d.exponent as nat) as int;
        assert(0 * p == 0);
        assert(ratio(0, 1) == 0real) by (nonlinear_arith);
    } else {
        let p = pow10((-d.exponent) as nat) as int;
        lemma_pow10_positive((-d.exponent) as nat);
        assert(ratio(0, p) == 0real) by (nonlinear_arith)
            requires
                p > 0,
        ;
    }
}

fn is_space_char(c: char) -> (r: bool)
    ensures
        r == is_space(c),
{
    let u: u32 = c as u32;
    (0x09 <= u && u <= 0x0D) || u == 0x20 || u == 0x85 || u == 0xA0 || u == 0x1680 || (0x2000 <= u
        && u <= 0x200A) || u == 0x2028 || u == 0x2029 || u == 0x202F || u == 0x205F || u == 0x3000
}

fn is_digit_char(c: char) -> (r: bool)
    ensures
        r == is_digit(c),
{
    let u: u32 = c as u32;
    0x30 <= u && u <= 0x39
}

/// The characters of `text`.
fn chars_of(text: &str) -> (r: Vec<char>)
    ensures
        r@ == text@,
{
    broadcast use vstd::string::axiom_spec_iter, vstd::string::next_postcondition;

    let mut out: Vec<char> = Vec::new();
    let mut rest = text.chars();
    loop
        invariant
            rest.obeys_prophetic_iter_laws(),
            rest.decrease() is Some,
            out@ + rest.remaining() == text@,
        decreases rest.decrease()->0,
    {
        match rest.next() {
            Some(c) => {
                out.push(c);
                assert(out@ + rest.remaining() =~= text@);
            },
            None => {
                assert(out@ =~= text@);
                return out;
            },
        }
    }
}

/// `s` without the white space at its two ends.
fn trim(s: &Vec<char>) -> (r: Vec<char>)
    ensures
        r@ == trimmed(s@),
{
    let mut from: usize = 0;
    while from < s.len() && is_space_char(s[from])
        invariant
            from <= s.len(),
            spaces_end(s@, from as int) == spaces_end(s@, 0),
        decreases s.len() - from,
    {
        from += 1;
    }
    let mut to: usize = s.len();
    while to > 0 && is_space_char(s[to - 1])
        invariant
            to <= s.len(),
            spaces_start(s@, to as int) == spaces_start(s@, s.len() as int),
        decreases to,
    {
        to -= 1;
    }
    let mut out: Vec<char> = Vec::new();
    let mut i: usize = from;
    while i < to
        invariant
            from <= i,
            to <= s.len(),
            from < to ==> i <= to,
            from < to ==> out@ == s@.subrange(from as int, i as int),
            from >= to ==> out@ == Seq::<char>::empty(),
        decreases to - i,
    {
        out.push(s[i]);
        i += 1;
        assert(out@ =~= s@.subrange(from as int, i as int));
    }
    assert(from < to ==> out@ =~= s@.subrange(from as int, to as int));
    out
}

/// Where the run of digits that starts at `from` ends.
fn scan_digits(s: &Vec<char>, from: usize) -> (to: usize)
    requires
        from <= s.len(),
    ensures
        to == digits_end(s@, from as int),
        from <= to <= s.len(),
        forall|j: int| from <= j < to ==> is_digit(s@[j]),
{
    let mut i: usize = from;
    while i < s.len() && is_digit_char(s[i])
        invariant
            from <= i <= s.len(),
            digits_end(s@, i as int) == digits_end(s@, from as int),
        decreases s.len() - i,
    {
        i += 1;
    }
    proof {
        lemma_digits_run(s@, from as int);
    }
    i
}

/// Appends the characters of `s` from `from` to `to` to `out`.
fn append_range(out: &mut Vec<char>, s: &Vec<char>, from: usize, to: usize)
    requires
        from <= to <= s.len(),
    ensures
        final(out)@ == old(out)@ + s@.subrange(from as int, to as int),
{
    let mut i: usize = from;
    while i < to
        invariant
            from <= i <= to <= s.len(),
            out@ == old(out)@ + s@.subrange(from as int, i as int),
        decreases to - i,
    {
        out.push(s[i]);
        i += 1;
        assert(out@ =~= old(out)@ + s@.subrange(from as int, i as int));
    }
}

/// The number that `digits` denote.
fn digits_to_nat(digits: &Vec<char>) -> (r: BigNat)
    requires
        forall|j: int| 0 <= j < digits@.len() ==> is_digit(digits@[j]),
    ensures
        r@ == digits_value(digits@),
{
    let mut acc = BigNat::zero();
    let mut i: usize = 0;
    while i < digits.len()
        invariant
            i <= digits.len(),
            forall|j: int| 0 <= j < digits@.len() ==> is_digit(digits@[j]),
            acc@ == digits_value(digits@.subrange(0, i as int)),
        decreases digits.len() - i,
    {
        let d: u32 = digits[i] as u32 - 0x30;
        acc = acc.scaled_plus(10, d);
        i += 1;
        proof {
            assert(digits@.subrange(0, i as int).drop_last() =~= digits@.subrange(0, i - 1));
            let a = digits_value(digits@.subrange(0, i - 1)) as int;
            assert(a * 10 == 10 * a);
        }
    }
    assert(digits@.subrange(0, digits@.len() as int) =~= digits@);
    acc
}

/// Ten to the power `n`.
fn power_of_ten(n: &BigNat) -> (r: BigNat)
    ensures
        r@ == pow10(n@),
{
    let mut acc = BigNat::from_u64(1);
    let mut i = BigNat::zero();
    while i.lt(n)
        invariant
            i@ <= n@,
            acc@ == pow10(i@),
        decreases n@ - i@,
    {
        acc = acc.scaled_plus(10, 0);
        i = i.scaled_plus(1, 1);
        proof {
            let a = pow10((i@ - 1) as nat) as int;
            assert(a * 10 == 10 * a);
        }
    }
    acc
}

/// The exponent written in `s` from `at` to the end.
fn parse_exponent(s: &Vec<char>, at: usize) -> (r: Option<BigInt>)
    requires
        at <= s.len(),
    ensures
        r matches Some(e) ==> read_exponent(s@, at as int) == Some(e@),
        r is None ==> read_exponent(s@, at as int) is None,
{
    if at >= s.len() {
        return Some(BigInt::zero());
    }
    let mark = s[at];
    if mark != 'e' && mark != 'E' {
        return None;
    }
    let mut from: usize = at + 1;
    let mut negative = false;
    if from < s.len() {
        let c = s[from];
        if c == '+' || c == '-' {
            negative = c == '-';
            from += 1;
        }
    }
    let to = scan_digits(s, from);
    if to == from || to < s.len() {
        return None;
    }
    let mut digits: Vec<char> = Vec::new();
    append_range(&mut digits, s, from, to);
    Some(BigInt::from_parts(negative, digits_to_nat(&digits)))
}

/// The number written in `s`, which is all of `s`.
pub fn parse_decimal(s: &Vec<char>) -> (r: Option<Rational>)
    ensures
        value_of(r) == match read_decimal(s@) {
            Some(d) => Some(decimal_value(d)),
            None => None,
        },
{
    let mut whole_from: usize = 0;
    let mut negative = false;
    if s.len() > 0 {
        let c = s[0];
        if c == '+' || c == '-' {
            negative = c == '-';
            whole_from = 1;
        }
    }
    let whole_to = scan_digits(s, whole_from);
    let fraction_from: usize = if whole_to < s.len() && s[whole_to] == '.' {
        whole_to + 1
    } else {
        whole_to
    };
    let fraction_to = scan_digits(s, fraction_from);
    let mut digits: Vec<char> = Vec::new();
    append_range(&mut digits, s, whole_from, whole_to);
    append_range(&mut digits, s, fraction_from, fraction_to);
    if digits.len() == 0 {
        return None;
    }
    let exponent = match parse_exponent(s, fraction_to) {
        None => {
            return None;
        },
        Some(e) => e,
    };
    let mantissa = digits_to_nat(&digits);
    if mantissa.is_zero() {
        proof {
            lemma_zero_mantissa(read_decimal(s@)->0);
        }
        return Some(Rational::from_i64(0));
    }
    // each digit behind the point takes one power of ten from the exponent
    let places = BigInt::from_parts(false, BigNat::from_u64((fraction_to - fraction_from) as u64));
    let shift = exponent.minus(&places);
    let power = power_of_ten(&shift.magnitude);
    let (num, den) = match shift.sign() {
        Sign::Negative => (mantissa, power),
        _ => (mantissa.times(&power), BigNat::from_u64(1)),
    };
    proof {
        lemma_pow10_positive(shift.magnitude@);
        lemma_ratio_negated(num@ as int, den@ as int);
    }
    Rational::new(BigInt::from_parts(negative, num), den)
}

/// The number written in `text`, white space at its ends aside.
pub fn parse_number(text: &str) -> (r: Option<Rational>)
    ensures
        value_of(r) == number_of(text@),
{
    let chars = chars_of(text);
    let body = trim(&chars);
    parse_decimal(&body)
}

} // verus!
