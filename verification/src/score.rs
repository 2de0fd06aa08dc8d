//! Fixed-point message scores, spam classification, and a verified parser
//! from decimal text to milli-units.
//!
//! A score is an `i64` counting milli-units: the value written `5.0` is the
//! integer `5000`. The spam threshold is inclusive: a message whose score
//! reaches the threshold exactly is classified as spam.

use vstd::prelude::*;
use vstd::string::StrSliceExecFns;

verus! {

/// Spam threshold in milli-units: a score of at least `5.0` is spam.
pub const SPAM_THRESHOLD_MILLIS: i64 = 5000;

/// Largest whole-unit magnitude the parser accepts; chosen so that
/// `MAX_WHOLE_UNITS * 1000 + 999` still fits in an `i64`.
pub const MAX_WHOLE_UNITS: i64 = 9_223_372_036_854_774;

/// Classifies a score: spam exactly when the score reaches the threshold.
pub fn classify_score(score: i64) -> (is_spam: bool)
    ensures
        is_spam == (score >= SPAM_THRESHOLD_MILLIS),
{
    score >= SPAM_THRESHOLD_MILLIS
}

pub open spec fn is_digit_char(c: char) -> bool {
    '0' <= c && c <= '9'
}

pub open spec fn digit_value(c: char) -> int {
    c as int - '0' as int
}

pub open spec fn all_digits(s: Seq<char>) -> bool {
    forall|i: int| 0 <= i < s.len() ==> is_digit_char(#[trigger] s[i])
}

/// The number denoted by a sequence of decimal digits, most significant first.
pub open spec fn digits_value(s: Seq<char>) -> int
    decreases s.len(),
{
    if s.len() == 0 {
        0
    } else {
        digits_value(s.drop_last()) * 10 + digit_value(s.last())
    }
}

/// Index of the first `'.'` in `s`, or `s.len()` if there is none.
pub open spec fn first_dot_pos(s: Seq<char>) -> int
    decreases s.len(),
{
    if s.len() == 0 {
        0
    } else if s[0] == '.' {
        0
    } else {
        1 + first_dot_pos(s.drop_first())
    }
}

/// The digits before the first dot (the whole-unit part).
pub open spec fn int_part(s: Seq<char>) -> Seq<char> {
    s.take(first_dot_pos(s))
}

/// The digits after the first dot; empty when there is no dot.
pub open spec fn frac_part(s: Seq<char>) -> Seq<char> {
    if first_dot_pos(s) < s.len() {
        s.skip(first_dot_pos(s) + 1)
    } else {
        Seq::empty()
    }
}

/// A well-formed unsigned number: digits around at most one dot, and at
/// least one digit somewhere.
pub open spec fn wf_unsigned(s: Seq<char>) -> bool {
    &&& all_digits(int_part(s))
    &&& all_digits(frac_part(s))
    &&& int_part(s).len() + frac_part(s).len() > 0
}

/// The `i`-th fractional digit, 0 beyond the written digits.
pub open spec fn frac_digit(f: Seq<char>, i: int) -> int {
    if i < f.len() {
        digit_value(f[i])
    } else {
        0
    }
}

/// Milli-units contributed by the fractional digits; digits beyond the
/// third are truncated (toward zero).
pub open spec fn frac_millis(f: Seq<char>) -> int {
    100 * frac_digit(f, 0) + 10 * frac_digit(f, 1) + frac_digit(f, 2)
}

/// Milli-unit value of a well-formed unsigned number.
pub open spec fn unsigned_millis(s: Seq<char>) -> int {
    1000 * digits_value(int_part(s)) + frac_millis(frac_part(s))
}

/// Whether the text opens with a minus sign.
pub open spec fn spec_is_neg(s: Seq<char>) -> bool {
    s.len() > 0 && s[0] == '-'
}

/// The text with a leading minus sign stripped.
pub open spec fn spec_body(s: Seq<char>) -> Seq<char> {
    if spec_is_neg(s) {
        s.drop_first()
    } else {
        s
    }
}

/// The score denoted by `s`, in milli-units: an optional `'-'`, then digits
/// around at most one dot, with at least one digit. `None` for any other
/// shape, and for magnitudes beyond `MAX_WHOLE_UNITS` whole units.
pub open spec fn spec_parse_score(s: Seq<char>) -> Option<int> {
    let body = spec_body(s);
    if wf_unsigned(body) && digits_value(int_part(body)) <= MAX_WHOLE_UNITS as int {
        if spec_is_neg(s) {
            Some(-unsigned_millis(body))
        } else {
            Some(unsigned_millis(body))
        }
    } else {
        None
    }
}

proof fn lemma_first_dot_pos_is(s: Seq<char>, k: int)
    requires
        0 <= k <= s.len(),
        forall|j: int| 0 <= j < k ==> s[j] != '.',
        k < s.len() ==> s[k] == '.',
    ensures
        first_dot_pos(s) == k,
    decreases s.len(),
{
    if s.len() == 0 {
    } else if s[0] == '.' {
        assert(k == 0);
    } else {
        assert(k >= 1);
        assert forall|j: int| 0 <= j < k - 1 implies s.drop_first()[j] != '.' by {
            assert(s.drop_first()[j] == s[j + 1]);
        }
        if k - 1 < s.drop_first().len() {
            assert(s.drop_first()[k - 1] == s[k]);
        }
        lemma_first_dot_pos_is(s.drop_first(), k - 1);
    }
}

proof fn lemma_digits_value_step(s: Seq<char>, k: int)
    requires
        0 <= k < s.len(),
    ensures
        digits_value(s.take(k + 1)) == digits_value(s.take(k)) * 10 + digit_value(s[k]),
{
    assert(s.take(k + 1).drop_last() =~= s.take(k));
    assert(s.take(k + 1).last() == s[k]);
}

/// Every `char` is a Unicode scalar value, hence a non-negative code point.
proof fn lemma_char_bounds(c: char)
    ensures
        0 <= c as int <= 0x10FFFF,
{
    broadcast use vstd::utf8::char_is_scalar;

    assert(c as int == c as u32 as int);
}

/// Once a digit prefix already exceeds `MAX_WHOLE_UNITS`, the value of the
/// whole sequence exceeds it too, whatever characters follow.
proof fn lemma_digits_value_grow(s: Seq<char>, k: int)
    requires
        0 <= k <= s.len(),
        digits_value(s.take(k)) > MAX_WHOLE_UNITS as int,
    ensures
        digits_value(s) >= digits_value(s.take(k)),
    decreases s.len() - k,
{
    if k == s.len() {
        assert(s.take(k) =~= s);
    } else {
        lemma_digits_value_step(s, k);
        lemma_char_bounds(s[k]);
        lemma_digits_value_grow(s, k + 1);
    }
}

/// Whether every character in `s@[from..to)` is a decimal digit.
fn digits_in_range(s: &str, from: usize, to: usize) -> (r: bool)
    requires
        from <= to <= s@.len(),
    ensures
        r == (forall|k: int| from <= k < to ==> is_digit_char(#[trigger] s@[k])),
{
    let mut j: usize = from;
    while j < to
        invariant
            from <= j <= to <= s@.len(),
            forall|k: int| from <= k < j ==> is_digit_char(#[trigger] s@[k]),
        decreases to - j,
    {
        let u = s.get_char(j) as u32;
        if u < 48 || u > 57 {
            proof {
                assert(!is_digit_char(s@[j as int]));
            }
            return false;
        }
        proof {
            assert(is_digit_char(s@[j as int]));
        }
        j += 1;
    }
    true
}

/// Parses a decimal score to milli-units, exactly as `spec_parse_score`
/// describes: an optional minus sign, then digits around at most one dot.
pub fn parse_score(s: &str) -> (r: Option<i64>)
    ensures
        match r {
            Some(v) => spec_parse_score(s@) == Some(v as int),
            None => spec_parse_score(s@) is None,
        },
{
    let n = s.unicode_len();
    let mut start: usize = 0;
    let mut neg: bool = false;
    if n > 0 && s.get_char(0) == '-' {
        neg = true;
        start = 1;
    }
    let ghost body: Seq<char> = s@.skip(start as int);
    proof {
        assert(body =~= spec_body(s@));
        assert(neg == spec_is_neg(s@));
    }

    // Find the first dot at or after `start`.
    let mut dot: usize = n;
    let mut j: usize = start;
    while j < n
        invariant
            start <= j <= n,
            n == s@.len(),
            start <= dot <= n,
            dot < n ==> dot < j && s@[dot as int] == '.' && (forall|k: int|
                start <= k < dot ==> s@[k] != '.'),
            dot == n ==> (forall|k: int| start <= k < j ==> s@[k] != '.'),
        decreases n - j,
    {
        if dot == n && s.get_char(j) == '.' {
            dot = j;
        }
        j += 1;
    }
    proof {
        assert forall|m: int| 0 <= m < dot - start implies body[m] != '.' by {
            assert(body[m] == s@[m + start]);
        }
        if dot < n {
            assert(body[dot - start] == s@[dot as int]);
        }
        lemma_first_dot_pos_is(body, dot - start);
        assert(int_part(body) =~= s@.subrange(start as int, dot as int));
        if dot < n {
            assert(frac_part(body) =~= s@.subrange(dot + 1, n as int));
        } else {
            assert(frac_part(body) =~= Seq::<char>::empty());
        }
    }
    let ghost fp: Seq<char> = frac_part(body);

    // Reject the empty body: no digit on either side of the dot.
    let frac_len: usize = if dot < n {
        n - dot - 1
    } else {
        0
    };
    if dot == start && frac_len == 0 {
        return None;
    }

    // Validate and accumulate the whole-unit digits.
    let mut acc: i64 = 0;
    let mut j: usize = start;
    while j < dot
        invariant
            start <= j <= dot <= n,
            n == s@.len(),
            body == spec_body(s@),
            int_part(body) == s@.subrange(start as int, dot as int),
            forall|k: int| start <= k < j ==> is_digit_char(#[trigger] s@[k]),
            0 <= acc <= MAX_WHOLE_UNITS,
            acc as int == digits_value(s@.subrange(start as int, j as int)),
        decreases dot - j,
    {
        let c = s.get_char(j);
        let u = c as u32;
        proof {
            broadcast use vstd::utf8::char_is_scalar;

            assert(int_part(body)[j - start] == s@[j as int]);
        }
        if u < 48 || u > 57 {
            proof {
                assert(!is_digit_char(s@[j as int]));
                assert(!all_digits(int_part(body)));
            }
            return None;
        }
        let d = (u - 48) as i64;
        proof {
            assert(digit_value(s@[j as int]) == d as int);
            assert(s@.subrange(start as int, j + 1).take(j - start) =~= s@.subrange(
                start as int,
                j as int,
            ));
            assert(s@.subrange(start as int, j + 1).take(j + 1 - start) =~= s@.subrange(
                start as int,
                j + 1,
            ));
            assert(s@.subrange(start as int, j + 1)[j - start] == s@[j as int]);
            lemma_digits_value_step(s@.subrange(start as int, j + 1), j - start);
        }
        let next = acc * 10 + d;
        if next > MAX_WHOLE_UNITS {
            // The whole-unit part is already too large; the rest of the text
            // can only decide between the two reasons to answer `None`.
            if digits_in_range(s, j + 1, dot) {
                proof {
                    assert forall|m: int| 0 <= m < int_part(body).len() implies is_digit_char(
                        #[trigger] int_part(body)[m],
                    ) by {
                        assert(int_part(body)[m] == s@[m + start]);
                    }
                    assert(int_part(body).take(j + 1 - start) =~= s@.subrange(
                        start as int,
                        j + 1,
                    ));
                    lemma_digits_value_grow(int_part(body), j + 1 - start);
                }
            } else {
                proof {
                    let k = choose|k: int|
                        j + 1 <= k < dot && !is_digit_char(#[trigger] s@[k]);
                    assert(int_part(body)[k - start] == s@[k]);
                    assert(!all_digits(int_part(body)));
                }
            }
            return None;
        }
        acc = next;
        j += 1;
    }
    proof {
        assert(s@.subrange(start as int, dot as int) == int_part(body));
        assert forall|m: int| 0 <= m < int_part(body).len() implies is_digit_char(
            #[trigger] int_part(body)[m],
        ) by {
            assert(int_part(body)[m] == s@[m + start]);
        }
        assert(acc as int == digits_value(int_part(body)));
    }

    // Validate the fractional digits; only the first three carry value.
    let mut f0: i64 = 0;
    let mut f1: i64 = 0;
    let mut f2: i64 = 0;
    if dot < n {
        let mut j: usize = dot + 1;
        while j < n
            invariant
                dot + 1 <= j <= n,
                n == s@.len(),
                dot < n,
                body == spec_body(s@),
                fp == frac_part(body),
                fp == s@.subrange(dot + 1, n as int),
                forall|k: int| dot + 1 <= k < j ==> is_digit_char(#[trigger] s@[k]),
                0 <= f0 <= 9 && 0 <= f1 <= 9 && 0 <= f2 <= 9,
                f0 as int == (if j > dot + 1 { frac_digit(fp, 0) } else { 0 }),
                f1 as int == (if j > dot + 2 { frac_digit(fp, 1) } else { 0 }),
                f2 as int == (if j > dot + 3 { frac_digit(fp, 2) } else { 0 }),
            decreases n - j,
        {
            let c = s.get_char(j);
            let u = c as u32;
            proof {
                assert(fp[j - dot - 1] == s@[j as int]);
            }
            if u < 48 || u > 57 {
                proof {
                    assert(!is_digit_char(s@[j as int]));
                    assert(!all_digits(fp));
                }
                return None;
            }
            let d = (u - 48) as i64;
            proof {
                assert(digit_value(s@[j as int]) == d as int);
            }
            if j == dot + 1 {
                f0 = d;
            } else if j == dot + 2 {
                f1 = d;
            } else if j == dot + 3 {
                f2 = d;
            }
            j += 1;
        }
    }
    proof {
        assert forall|k: int| 0 <= k < fp.len() implies is_digit_char(#[trigger] fp[k]) by {
            assert(fp[k] == s@[k + dot + 1]);
        }
        assert(f0 as int == frac_digit(fp, 0));
        assert(f1 as int == frac_digit(fp, 1));
        assert(f2 as int == frac_digit(fp, 2));
        assert(wf_unsigned(body));
    }

    let frac: i64 = f0 * 100 + f1 * 10 + f2;
    let total: i64 = acc * 1000 + frac;
    proof {
        assert(total as int == unsigned_millis(body));
    }
    if neg {
        Some(-total)
    } else {
        Some(total)
    }
}

} // verus!
