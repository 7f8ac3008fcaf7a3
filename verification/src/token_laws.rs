//! What holds of a numeral that is written with its unit and nothing else,
//! and so of every field of a summary line.

use crate::grammar::{
    count_at, count_number, find_numeral, fraction_len, is_token_span, numeral_before,
    numeral_digits, numeral_len, numeral_number, span_text, time_at, time_nanos, time_number,
    time_unit_at,
};
use crate::metrics::Quantity;
use crate::text::{digit_run, digits_at, has_at, is_digit, lemma_digit_run_bound};
use vstd::prelude::*;

verus! {

/// `t` is a numeral with `suffix` directly after it, and nothing else.
pub open spec fn is_numeral_with(t: Seq<char>, suffix: Seq<char>) -> bool {
    &&& numeral_len(t, 0) > 0
    &&& t.len() == numeral_len(t, 0) + suffix.len()
    &&& has_at(t, numeral_len(t, 0) as int, suffix)
}

/// A text that can stand for a unit: it holds no digit and does not start
/// with a point.
pub open spec fn is_unit(suffix: Seq<char>) -> bool {
    &&& forall|k: int| 0 <= k < suffix.len() ==> !is_digit(#[trigger] suffix[k])
    &&& suffix.len() > 0 ==> suffix[0] != '.'
}

/// Inside a run of digits, the run goes on to where it ends.
proof fn lemma_digit_run_inside(s: Seq<char>, i: int, p: int)
    requires
        0 <= i <= p < i + digit_run(s, i),
    ensures
        p + digit_run(s, p) == i + digit_run(s, i),
    decreases p - i,
{
    lemma_digit_run_bound(s, i);
    if i < p {
        lemma_digit_run_inside(s, i + 1, p);
    }
}

/// Every numeral that starts inside a numeral with its unit ends where that
/// numeral ends.
proof fn lemma_numerals_end_together(t: Seq<char>, suffix: Seq<char>, p: int)
    requires
        is_numeral_with(t, suffix),
        is_unit(suffix),
        0 <= p < t.len(),
    ensures
        numeral_len(t, p) > 0 ==> p + numeral_len(t, p) == numeral_len(t, 0),
{
    let n = digit_run(t, 0) as int;
    let f = fraction_len(t, 0) as int;
    let m = numeral_len(t, 0) as int;
    lemma_digit_run_bound(t, 0);
    if n < t.len() {
        lemma_digit_run_bound(t, n + 1);
    }
    if m < t.len() {
        assert(t.subrange(m, m + suffix.len())[0] == suffix[0]);
        assert(t[m] == suffix[0]);
    }
    if p < n {
        lemma_digit_run_inside(t, 0, p);
    } else if p == n {
        assert(!is_digit(t[p]));
    } else if p < m {
        lemma_digit_run_inside(t, n + 1, p);
        lemma_digit_run_bound(t, p);
    } else {
        assert(t.subrange(m, m + suffix.len())[p - m] == suffix[p - m]);
        assert(!is_digit(t[p]));
    }
}

/// In a numeral with its unit, no numeral is followed by a text that does
/// not follow the whole numeral.
proof fn lemma_no_other_suffix(
    t: Seq<char>,
    suffix: Seq<char>,
    other: Seq<char>,
    to_end: bool,
    from: int,
)
    requires
        is_numeral_with(t, suffix),
        is_unit(suffix),
        !(has_at(t, numeral_len(t, 0) as int, other) && (to_end ==> numeral_len(t, 0)
            + other.len() == t.len())),
        0 <= from,
    ensures
        find_numeral(t, other, to_end, from) is None,
    decreases t.len() - from,
{
    if from < t.len() {
        lemma_numerals_end_together(t, suffix, from);
        assert(!numeral_before(t, from, other, to_end));
        lemma_no_other_suffix(t, suffix, other, to_end, from + 1);
    }
}

/// The first character of `suffix` stands directly after the numeral.
proof fn lemma_unit_starts(t: Seq<char>, suffix: Seq<char>)
    requires
        is_numeral_with(t, suffix),
        suffix.len() > 0,
    ensures
        t[numeral_len(t, 0) as int] == suffix[0],
        suffix.len() > 1 ==> t[numeral_len(t, 0) as int + 1] == suffix[1],
{
    let m = numeral_len(t, 0) as int;
    assert(t.subrange(m, m + suffix.len())[0] == suffix[0]);
    if suffix.len() > 1 {
        assert(t.subrange(m, m + suffix.len())[1] == suffix[1]);
    }
}

/// `other` does not stand in `t` at position `m`, because the character at
/// position `k` of it differs.
proof fn lemma_differs_at(t: Seq<char>, m: int, other: Seq<char>, k: int)
    requires
        0 <= k < other.len(),
        0 <= m,
        m + k >= t.len() || t[m + k] != other[k],
    ensures
        !has_at(t, m, other),
{
    if has_at(t, m, other) {
        assert(t.subrange(m, m + other.len())[k] == other[k]);
    }
}

/// A numeral written with a unit of time and nothing else is converted by
/// that unit: `ns` leaves it as it is, `us` multiplies it by a thousand, `ms`
/// by a million and `s` by a thousand million.
pub proof fn lemma_time_by_unit(t: Seq<char>)
    ensures
        is_numeral_with(t, "ns"@) ==> time_number(t) == Some(numeral_number(t, 0, 0)),
        is_numeral_with(t, "us"@) ==> time_number(t) == Some(numeral_number(t, 0, 3)),
        is_numeral_with(t, "ms"@) ==> time_number(t) == Some(numeral_number(t, 0, 6)),
        is_numeral_with(t, "s"@) ==> time_number(t) == Some(numeral_number(t, 0, 9)),
{
    reveal_strlit("ns");
    reveal_strlit("us");
    reveal_strlit("ms");
    reveal_strlit("s");
    let m = numeral_len(t, 0) as int;
    if is_numeral_with(t, "ns"@) {
        assert(numeral_before(t, 0, "ns"@, false));
    }
    if is_numeral_with(t, "us"@) {
        lemma_unit_starts(t, "us"@);
        lemma_differs_at(t, m, "ns"@, 0);
        lemma_no_other_suffix(t, "us"@, "ns"@, false, 0);
        assert(numeral_before(t, 0, "us"@, false));
    }
    if is_numeral_with(t, "ms"@) {
        lemma_unit_starts(t, "ms"@);
        lemma_differs_at(t, m, "ns"@, 0);
        lemma_differs_at(t, m, "us"@, 0);
        lemma_no_other_suffix(t, "ms"@, "ns"@, false, 0);
        lemma_no_other_suffix(t, "ms"@, "us"@, false, 0);
        assert(numeral_before(t, 0, "ms"@, false));
    }
    if is_numeral_with(t, "s"@) {
        lemma_unit_starts(t, "s"@);
        lemma_differs_at(t, m, "ns"@, 0);
        lemma_differs_at(t, m, "us"@, 0);
        lemma_differs_at(t, m, "ms"@, 0);
        lemma_no_other_suffix(t, "s"@, "ns"@, false, 0);
        lemma_no_other_suffix(t, "s"@, "us"@, false, 0);
        lemma_no_other_suffix(t, "s"@, "ms"@, false, 0);
        assert(numeral_before(t, 0, "s"@, false));
    }
}

/// A numeral written with a unit of count, or with none, and nothing else is
/// converted by that unit: `m` gives thousandths, no unit leaves it as it is,
/// `k` multiplies it by a thousand, `M` by a million and `G` by a thousand
/// million.
pub proof fn lemma_count_by_unit(t: Seq<char>)
    ensures
        is_numeral_with(t, "m"@) ==> count_number(t) == Some(numeral_number(t, 0, -3)),
        is_numeral_with(t, ""@) ==> count_number(t) == Some(numeral_number(t, 0, 0)),
        is_numeral_with(t, "k"@) ==> count_number(t) == Some(numeral_number(t, 0, 3)),
        is_numeral_with(t, "M"@) ==> count_number(t) == Some(numeral_number(t, 0, 6)),
        is_numeral_with(t, "G"@) ==> count_number(t) == Some(numeral_number(t, 0, 9)),
{
    reveal_strlit("m");
    reveal_strlit("");
    reveal_strlit("k");
    reveal_strlit("M");
    reveal_strlit("G");
    let m = numeral_len(t, 0) as int;
    if is_numeral_with(t, "m"@) {
        assert(numeral_before(t, 0, "m"@, false));
    }
    if is_numeral_with(t, ""@) {
        lemma_differs_at(t, m, "m"@, 0);
        lemma_no_other_suffix(t, ""@, "m"@, false, 0);
        assert(numeral_before(t, 0, ""@, true));
    }
    if is_numeral_with(t, "k"@) {
        lemma_unit_starts(t, "k"@);
        lemma_differs_at(t, m, "m"@, 0);
        lemma_no_other_suffix(t, "k"@, "m"@, false, 0);
        lemma_no_other_suffix(t, "k"@, ""@, true, 0);
        assert(numeral_before(t, 0, "k"@, false));
    }
    if is_numeral_with(t, "M"@) {
        lemma_unit_starts(t, "M"@);
        lemma_differs_at(t, m, "m"@, 0);
        lemma_differs_at(t, m, "k"@, 0);
        lemma_no_other_suffix(t, "M"@, "m"@, false, 0);
        lemma_no_other_suffix(t, "M"@, ""@, true, 0);
        lemma_no_other_suffix(t, "M"@, "k"@, false, 0);
        assert(numeral_before(t, 0, "M"@, false));
    }
    if is_numeral_with(t, "G"@) {
        lemma_unit_starts(t, "G"@);
        lemma_differs_at(t, m, "m"@, 0);
        lemma_differs_at(t, m, "k"@, 0);
        lemma_differs_at(t, m, "M"@, 0);
        lemma_no_other_suffix(t, "G"@, "m"@, false, 0);
        lemma_no_other_suffix(t, "G"@, ""@, true, 0);
        lemma_no_other_suffix(t, "G"@, "k"@, false, 0);
        lemma_no_other_suffix(t, "G"@, "M"@, false, 0);
        assert(numeral_before(t, 0, "G"@, false));
    }
}

/// A run of digits inside a part of a string is the run in the whole string,
/// cut where the part ends.
proof fn lemma_digit_run_within(s: Seq<char>, a: int, b: int, k: int)
    requires
        0 <= a <= a + k <= b <= s.len(),
        0 <= k,
    ensures
        digit_run(s.subrange(a, b), k) == if a + k + digit_run(s, a + k) <= b {
            digit_run(s, a + k)
        } else {
            (b - a - k) as nat
        },
    decreases b - a - k,
{
    let t = s.subrange(a, b);
    lemma_digit_run_bound(s, a + k);
    if k < b - a {
        assert(t[k] == s[a + k]);
        if is_digit(t[k]) {
            lemma_digit_run_within(s, a, b, k + 1);
        }
    }
}

/// A numeral that lies inside a part of a string is the same numeral when the
/// part is read alone.
proof fn lemma_numeral_within(s: Seq<char>, a: int, b: int)
    requires
        0 <= a <= b <= s.len(),
        numeral_len(s, a) > 0,
        a + numeral_len(s, a) <= b,
    ensures
        numeral_len(s.subrange(a, b), 0) == numeral_len(s, a),
        fraction_len(s.subrange(a, b), 0) == fraction_len(s, a),
        numeral_digits(s.subrange(a, b), 0) == numeral_digits(s, a),
{
    let t = s.subrange(a, b);
    let n = digit_run(s, a) as int;
    lemma_digit_run_within(s, a, b, 0);
    lemma_digit_run_bound(s, a);
    assert(digit_run(t, 0) == n);
    let dot = a + n;
    if dot < b {
        assert(t[n as int] == s[dot]);
        lemma_digit_run_within(s, a, b, n + 1);
        lemma_digit_run_bound(s, dot + 1);
    }
    assert(fraction_len(t, 0) == fraction_len(s, a));
    let f = fraction_len(s, a);
    assert(digits_at(t, 0, n as nat) =~= digits_at(s, a, n as nat));
    assert(digits_at(t, n + 1, f) =~= digits_at(s, a + n + 1, f));
}

/// A time that stands in a text gives, when read alone, its numeral
/// multiplied as its unit says.
pub proof fn lemma_time_field_value(s: Seq<char>, span: (int, int))
    requires
        is_token_span(s, span, Quantity::Time),
    ensures
        time_number(span_text(s, span)) == Some(
            numeral_number(s, span.0, time_unit_at(s, span.0)),
        ),
        time_nanos(span_text(s, span)) == Some(time_at(s, span.0)),
{
    reveal_strlit("s");
    reveal_strlit("ms");
    reveal_strlit("us");
    reveal_strlit("ns");
    let a = span.0;
    let m = numeral_len(s, a) as int;
    let t = span_text(s, span);
    lemma_numeral_within(s, a, span.1);
    let e = a + m;
    assert(t[m] == s[e]);
    if s[e] == 's' {
        assert(t.subrange(m, m + 1) =~= "s"@);
        assert(is_numeral_with(t, "s"@));
    } else {
        assert(t[m + 1] == s[e + 1]);
        if s[e] == 'm' {
            assert(t.subrange(m, m + 2) =~= "ms"@);
            assert(is_numeral_with(t, "ms"@));
        } else if s[e] == 'u' {
            assert(t.subrange(m, m + 2) =~= "us"@);
            assert(is_numeral_with(t, "us"@));
        } else {
            assert(t.subrange(m, m + 2) =~= "ns"@);
            assert(is_numeral_with(t, "ns"@));
        }
    }
    lemma_time_by_unit(t);
}

/// A count that stands in a text gives, when read alone, its numeral
/// multiplied as its unit says.
pub proof fn lemma_count_field_value(s: Seq<char>, span: (int, int))
    requires
        is_token_span(s, span, Quantity::Count),
    ensures
        count_number(span_text(s, span)) == Some(count_at(s, span.0)),
{
    reveal_strlit("");
    reveal_strlit("m");
    reveal_strlit("k");
    reveal_strlit("M");
    reveal_strlit("G");
    let a = span.0;
    let m = numeral_len(s, a) as int;
    let t = span_text(s, span);
    lemma_numeral_within(s, a, span.1);
    let e = a + m;
    if span.1 - a == m {
        assert(t.subrange(m, m) =~= ""@);
        assert(is_numeral_with(t, ""@));
    } else {
        assert(t[m] == s[e]);
        if s[e] == 'm' {
            assert(t.subrange(m, m + 1) =~= "m"@);
            assert(is_numeral_with(t, "m"@));
        } else if s[e] == 'k' {
            assert(t.subrange(m, m + 1) =~= "k"@);
            assert(is_numeral_with(t, "k"@));
        } else if s[e] == 'M' {
            assert(t.subrange(m, m + 1) =~= "M"@);
            assert(is_numeral_with(t, "M"@));
        } else {
            assert(t.subrange(m, m + 1) =~= "G"@);
            assert(is_numeral_with(t, "G"@));
        }
    }
    lemma_count_by_unit(t);
}

} // verus!
