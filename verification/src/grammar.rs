//! The grammar of decimal numbers, and that reading follows it.
//!
//! [`read_decimal`] is stated as a walk over the text. Here the same numbers
//! are described by their parts, and the two descriptions are proved to
//! agree: every text put together from well-formed parts is read as the
//! number that the parts denote, and nothing else is read at all.

use crate::decimal::{
    decimal_value, digits_end, digits_value, is_digit, is_exponent_mark, is_sign, is_space,
    lemma_digits_run, number_of, read_decimal, read_exponent, spaces_end, spaces_start, trimmed,
    Decimal,
};
use vstd::prelude::*;

verus! {

/// The parts of a written number, in the order in which they stand.
pub struct Written {
    /// Nothing, `+` or `-`.
    pub sign: Seq<char>,
    /// The digits before the point.
    pub whole: Seq<char>,
    /// Nothing or `.`.
    pub point: Seq<char>,
    /// The digits after the point.
    pub fraction: Seq<char>,
    /// Nothing, `e` or `E`.
    pub mark: Seq<char>,
    /// The sign of the exponent: nothing, `+` or `-`.
    pub exponent_sign: Seq<char>,
    /// The digits of the exponent.
    pub exponent: Seq<char>,
}

/// Whether `s` holds digits only.
pub open spec fn all_digits(s: Seq<char>) -> bool {
    forall|i: int| 0 <= i < s.len() ==> is_digit(s[i])
}

/// Whether `s` is nothing or a sign.
pub open spec fn optional_sign(s: Seq<char>) -> bool {
    s.len() == 0 || (s.len() == 1 && is_sign(s[0]))
}

/// Whether `s` is a minus sign.
pub open spec fn is_minus(s: Seq<char>) -> bool {
    s.len() == 1 && s[0] == '-'
}

/// Whether the parts follow the grammar: at least one digit in the
/// mantissa, fraction digits only behind a point, and behind an exponent
/// mark at least one digit.
pub open spec fn well_formed(w: Written) -> bool {
    &&& optional_sign(w.sign)
    &&& all_digits(w.whole)
    &&& (w.point.len() == 0 || (w.point.len() == 1 && w.point[0] == '.'))
    &&& all_digits(w.fraction)
    &&& (w.point.len() == 0 ==> w.fraction.len() == 0)
    &&& w.whole.len() + w.fraction.len() > 0
    &&& (w.mark.len() == 0 || (w.mark.len() == 1 && is_exponent_mark(w.mark[0])))
    &&& optional_sign(w.exponent_sign)
    &&& all_digits(w.exponent)
    &&& (w.mark.len() == 0 ==> w.exponent_sign.len() == 0 && w.exponent.len() == 0)
    &&& (w.mark.len() == 1 ==> w.exponent.len() > 0)
}

/// The text that the parts make.
pub open spec fn spelling(w: Written) -> Seq<char> {
    w.sign + w.whole + w.point + w.fraction + w.mark + w.exponent_sign + w.exponent
}

/// The written power of ten.
pub open spec fn written_exponent(w: Written) -> int {
    if is_minus(w.exponent_sign) {
        -(digits_value(w.exponent) as int)
    } else {
        digits_value(w.exponent) as int
    }
}

/// The number that the parts denote: the digits of the mantissa, read as
/// one number, times ten to the written exponent, less one power of ten for
/// each digit of the fraction.
pub open spec fn meaning(w: Written) -> Decimal {
    Decimal {
        negative: is_minus(w.sign),
        mantissa: digits_value(w.whole + w.fraction),
        exponent: written_exponent(w) - w.fraction.len(),
    }
}

/// A run of digits ends where the first character stands that is no digit.
pub proof fn lemma_digits_end(s: Seq<char>, from: int, to: int)
    requires
        0 <= from <= to <= s.len(),
        forall|i: int| from <= i < to ==> is_digit(s[i]),
        to < s.len() ==> !is_digit(s[to]),
    ensures
        digits_end(s, from) == to,
    decreases to - from,
{
    if from < to {
        lemma_digits_end(s, from + 1, to);
    }
}

/// Every text that follows the grammar is read, as the number that its
/// parts denote.
pub proof fn law_grammar_is_read(w: Written)
    requires
        well_formed(w),
    ensures
        read_decimal(spelling(w)) == Some(meaning(w)),
{
    let s = spelling(w);
    let a = w.sign.len() as int;
    let b = a + w.whole.len();
    let c = b + w.point.len();
    let d = c + w.fraction.len();
    let e = d + w.mark.len();
    let f = e + w.exponent_sign.len();
    let g = f + w.exponent.len();
    assert(s.len() == g);
    assert forall|i: int| a <= i < b implies s[i] == w.whole[i - a] by {}
    assert forall|i: int| b <= i < c implies s[i] == w.point[i - b] by {}
    assert forall|i: int| c <= i < d implies s[i] == w.fraction[i - c] by {}
    assert forall|i: int| d <= i < e implies s[i] == w.mark[i - d] by {}
    assert forall|i: int| e <= i < f implies s[i] == w.exponent_sign[i - e] by {}
    assert forall|i: int| f <= i < g implies s[i] == w.exponent[i - f] by {}
    assert forall|i: int| 0 <= i < a implies s[i] == w.sign[i] by {}

    // the sign
    assert(s.len() > 0);
    if a == 0 {
        if b > a {
            assert(is_digit(s[0]));
        } else {
            assert(c > b);
            assert(s[0] == '.');
        }
        assert(!is_sign(s[0]));
    } else {
        assert(is_sign(s[0]));
    }
    // the digits before the point
    if b < g {
        if c > b {
            assert(s[b] == '.');
        } else {
            assert(d == b);
            assert(e > d);
            assert(is_exponent_mark(s[b]));
        }
        assert(!is_digit(s[b]));
    }
    assert forall|i: int| a <= i < b implies is_digit(s[i]) by {
        assert(is_digit(w.whole[i - a]));
    }
    lemma_digits_end(s, a, b);
    // the point
    if c == b && b < g {
        assert(s[b] != '.');
    }
    // the digits behind the point
    if d < g {
        assert(e > d);
        assert(is_exponent_mark(s[d]));
        assert(!is_digit(s[d]));
    }
    assert forall|i: int| c <= i < d implies is_digit(s[i]) by {
        assert(is_digit(w.fraction[i - c]));
    }
    lemma_digits_end(s, c, d);
    assert(s.subrange(a, b) =~= w.whole);
    assert(s.subrange(c, d) =~= w.fraction);
    // the exponent
    if e > d {
        if f > e {
            assert(is_sign(s[d + 1]));
        } else {
            assert(g > f);
            assert(is_digit(s[d + 1]));
            assert(!is_sign(s[d + 1]));
        }
        assert forall|i: int| f <= i < g implies is_digit(s[i]) by {
            assert(is_digit(w.exponent[i - f]));
        }
        lemma_digits_end(s, f, g);
        assert(s.subrange(f, g) =~= w.exponent);
        assert(read_exponent(s, d) == Some(written_exponent(w)));
    } else {
        assert(d == g);
        assert(read_exponent(s, d) == Some(0int));
        assert(digits_value(w.exponent) == 0);
    }
}

/// The parts of a text, cut where reading turns from one part to the next.
pub open spec fn parts_of(s: Seq<char>) -> Written {
    let a = if s.len() > 0 && is_sign(s[0]) {
        1int
    } else {
        0int
    };
    let b = digits_end(s, a);
    let c = if b < s.len() && s[b] == '.' {
        b + 1
    } else {
        b
    };
    let d = digits_end(s, c);
    let e = if d < s.len() {
        d + 1
    } else {
        d
    };
    let f = if e < s.len() && is_sign(s[e]) {
        e + 1
    } else {
        e
    };
    Written {
        sign: s.subrange(0, a),
        whole: s.subrange(a, b),
        point: s.subrange(b, c),
        fraction: s.subrange(c, d),
        mark: s.subrange(d, e),
        exponent_sign: s.subrange(e, f),
        exponent: s.subrange(f, s.len() as int),
    }
}

/// Nothing but the grammar is read: a text that is read is spelled by
/// well-formed parts, and is read as what they denote.
pub proof fn law_what_is_read_follows_grammar(s: Seq<char>)
    requires
        read_decimal(s) is Some,
    ensures
        well_formed(parts_of(s)),
        spelling(parts_of(s)) == s,
        read_decimal(s) == Some(meaning(parts_of(s))),
{
    let w = parts_of(s);
    let a = w.sign.len() as int;
    lemma_digits_run(s, a);
    let b = digits_end(s, a);
    let c = b + w.point.len();
    lemma_digits_run(s, c);
    let d = digits_end(s, c);
    assert(s.len() > 0);
    assert(optional_sign(w.sign)) by {
        if a == 1 {
            assert(w.sign[0] == s[0]);
        }
    }
    assert(all_digits(w.whole)) by {
        assert forall|i: int| 0 <= i < w.whole.len() implies is_digit(w.whole[i]) by {
            assert(w.whole[i] == s[a + i]);
        }
    }
    assert(all_digits(w.fraction)) by {
        assert forall|i: int| 0 <= i < w.fraction.len() implies is_digit(w.fraction[i]) by {
            assert(w.fraction[i] == s[c + i]);
        }
    }
    if c > b {
        assert(w.point[0] == s[b]);
    } else {
        assert(d == b);
    }
    assert(w.whole.len() + w.fraction.len() == (s.subrange(a, b) + s.subrange(c, d)).len());
    if d < s.len() {
        let e = d + 1;
        let f = e + w.exponent_sign.len();
        assert(read_exponent(s, d) is Some);
        assert(w.mark[0] == s[d]);
        if f > e {
            assert(w.exponent_sign[0] == s[e]);
        }
        lemma_digits_run(s, f);
        assert(digits_end(s, f) == s.len());
        assert(w.exponent =~= s.subrange(f, digits_end(s, f)));
        assert(all_digits(w.exponent)) by {
            assert forall|i: int| 0 <= i < w.exponent.len() implies is_digit(w.exponent[i]) by {
                assert(w.exponent[i] == s[f + i]);
            }
        }
    }
    assert(spelling(w) =~= s);
    law_grammar_is_read(w);
}

/// A text is read in one way only: parts that spell the same text denote
/// the same number.
pub proof fn law_reading_is_unambiguous(v: Written, w: Written)
    requires
        well_formed(v),
        well_formed(w),
        spelling(v) == spelling(w),
    ensures
        meaning(v) == meaning(w),
{
    law_grammar_is_read(v);
    law_grammar_is_read(w);
}

/// Whether `s` holds white space only.
pub open spec fn all_spaces(s: Seq<char>) -> bool {
    forall|i: int| 0 <= i < s.len() ==> is_space(s[i])
}

/// A run of white space ends where the first character stands that is none.
pub proof fn lemma_spaces_end(s: Seq<char>, from: int, to: int)
    requires
        0 <= from <= to <= s.len(),
        forall|i: int| from <= i < to ==> is_space(s[i]),
        to < s.len() ==> !is_space(s[to]),
    ensures
        spaces_end(s, from) == to,
    decreases to - from,
{
    if from < to {
        lemma_spaces_end(s, from + 1, to);
    }
}

/// A run of white space starts behind the last character before it that is
/// none.
pub proof fn lemma_spaces_start(s: Seq<char>, from: int, to: int)
    requires
        0 <= from <= to <= s.len(),
        forall|i: int| from <= i < to ==> is_space(s[i]),
        from > 0 ==> !is_space(s[from - 1]),
    ensures
        spaces_start(s, to) == from,
    decreases to - from,
{
    if from < to {
        lemma_spaces_start(s, from, to - 1);
    }
}

/// Trimming takes away the white space at the two ends and nothing else:
/// what stands between them, from its first character that is no white
/// space to its last, is left as it is.
pub proof fn law_trimming_leaves_the_core(lead: Seq<char>, core: Seq<char>, trail: Seq<char>)
    requires
        all_spaces(lead),
        all_spaces(trail),
        core.len() > 0 ==> !is_space(core.first()) && !is_space(core.last()),
    ensures
        trimmed(lead + core + trail) == core,
{
    let s = lead + core + trail;
    let a = lead.len() as int;
    let b = a + core.len();
    assert forall|i: int| 0 <= i < a implies s[i] == lead[i] by {}
    assert forall|i: int| a <= i < b implies s[i] == core[i - a] by {}
    assert forall|i: int| b <= i < s.len() implies s[i] == trail[i - b] by {}
    if core.len() > 0 {
        assert(s[a] == core.first());
        assert(s[b - 1] == core.last());
        assert forall|i: int| 0 <= i < a implies is_space(s[i]) by {
            assert(is_space(lead[i]));
        }
        assert forall|i: int| b <= i < s.len() implies is_space(s[i]) by {
            assert(is_space(trail[i - b]));
        }
        lemma_spaces_end(s, 0, a);
        lemma_spaces_start(s, b, s.len() as int);
        assert(s.subrange(a, b) =~= core);
    } else {
        assert forall|i: int| 0 <= i < s.len() implies is_space(s[i]) by {
            if i < a {
                assert(is_space(lead[i]));
            } else {
                assert(is_space(trail[i - b]));
            }
        }
        lemma_spaces_end(s, 0, s.len() as int);
        lemma_spaces_start(s, 0, s.len() as int);
        assert(core =~= Seq::<char>::empty());
    }
}

/// A number that follows the grammar, with any white space before and
/// after it, is read as the number that its parts denote.
pub proof fn law_written_number_is_read(lead: Seq<char>, w: Written, trail: Seq<char>)
    requires
        all_spaces(lead),
        all_spaces(trail),
        well_formed(w),
    ensures
        number_of(lead + spelling(w) + trail) == Some(decimal_value(meaning(w))),
{
    let core = spelling(w);
    law_grammar_is_read(w);
    let a = w.sign.len() as int;
    let b = a + w.whole.len();
    let c = b + w.point.len();
    assert(core.len() > 0);
    // the first character is a sign, a digit or the point
    if a > 0 {
        assert(core.first() == w.sign[0]);
    } else if b > a {
        assert(core.first() == w.whole[0]);
    } else {
        assert(core.first() == w.point[0]);
    }
    // the last character is a digit or the point
    if w.exponent.len() > 0 {
        assert(core.last() == w.exponent.last());
    } else if w.fraction.len() > 0 {
        assert(core.last() == w.fraction.last());
    } else if w.point.len() > 0 {
        assert(core.last() == w.point[0]);
    } else {
        assert(core.last() == w.whole.last());
    }
    law_trimming_leaves_the_core(lead, core, trail);
}

} // verus!
