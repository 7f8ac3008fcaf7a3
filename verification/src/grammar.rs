//! The grammar of the load generator's summary: numbers with units, the
//! latency line and the throughput line, and a block of output.
//!
//! ```text
//! Thread Stats   Avg      Stdev     Max   +/- Stdev
//!   Latency   635.91us    0.89ms  12.92ms   93.69%
//!   Req/Sec     57.2k       4k      100k    93.69%
//! ```
//!
//! A numeral is one or more digits, then, where a point and a digit follow,
//! the point and all the digits after it. A value is a numeral and a unit
//! directly after it. A summary line is a label, then three values, each with
//! whitespace before it. Everything here is stated over sequences of
//! characters and positions in them; nothing here runs.

use crate::decimal::{saturate, Number};
use crate::metrics::{LineKind, MetricData, MetricValue, Quantity};
use crate::text::{digit_run, digits_at, has_at, is_space, space_run};
use vstd::prelude::*;

verus! {

/// The number of digits after the decimal point of the numeral that starts at
/// position `i`: zero where no point follows the integer digits, or no digit
/// follows the point.
pub open spec fn fraction_len(s: Seq<char>, i: int) -> nat {
    let dot = i + digit_run(s, i);
    if digit_run(s, i) > 0 && dot < s.len() && s[dot] == '.' {
        digit_run(s, dot + 1)
    } else {
        0
    }
}

/// The length of the numeral that starts at position `i`: one or more digits,
/// then, where a point and at least one digit follow, the point and all the
/// digits after it. Zero where no digit stands at `i`.
pub open spec fn numeral_len(s: Seq<char>, i: int) -> nat {
    if digit_run(s, i) == 0 {
        0
    } else if fraction_len(s, i) == 0 {
        digit_run(s, i)
    } else {
        digit_run(s, i) + 1 + fraction_len(s, i)
    }
}

/// The digits of the numeral that starts at position `i`, those before the
/// point and those after it.
pub open spec fn numeral_digits(s: Seq<char>, i: int) -> Seq<u8> {
    digits_at(s, i, digit_run(s, i)) + digits_at(
        s,
        i + digit_run(s, i) + 1,
        fraction_len(s, i),
    )
}

/// The numeral that starts at position `i`, times ten to the power `unit`.
pub open spec fn numeral_number(s: Seq<char>, i: int, unit: int) -> Number {
    Number { digits: numeral_digits(s, i), exponent: unit - fraction_len(s, i) }
}

/// A numeral starts at position `i` and `suffix` follows it directly; with
/// `to_end`, the string ends there.
pub open spec fn numeral_before(s: Seq<char>, i: int, suffix: Seq<char>, to_end: bool) -> bool {
    &&& numeral_len(s, i) > 0
    &&& has_at(s, i + numeral_len(s, i), suffix)
    &&& to_end ==> i + numeral_len(s, i) + suffix.len() == s.len()
}

/// The first position from `from` on at which a numeral starts that `suffix`
/// follows (see [`numeral_before`]).
pub open spec fn find_numeral(s: Seq<char>, suffix: Seq<char>, to_end: bool, from: int) -> Option<
    int,
>
    decreases s.len() - from,
{
    if from < 0 || from >= s.len() {
        None
    } else if numeral_before(s, from, suffix, to_end) {
        Some(from)
    } else {
        find_numeral(s, suffix, to_end, from + 1)
    }
}

/// The first numeral in `s` that `suffix` follows, times ten to the power
/// `unit`.
pub open spec fn scaled(s: Seq<char>, suffix: Seq<char>, to_end: bool, unit: int) -> Option<
    Number,
> {
    match find_numeral(s, suffix, to_end, 0) {
        Some(i) => Some(numeral_number(s, i, unit)),
        None => None,
    }
}

/// The time that `s` gives, in nanoseconds: the first numeral before `ns`;
/// where there is none, the first before `us`, times a thousand; then `ms`,
/// times a million; then `s`, times a thousand million.
pub open spec fn time_number(s: Seq<char>) -> Option<Number> {
    if scaled(s, "ns"@, false, 0) is Some {
        scaled(s, "ns"@, false, 0)
    } else if scaled(s, "us"@, false, 3) is Some {
        scaled(s, "us"@, false, 3)
    } else if scaled(s, "ms"@, false, 6) is Some {
        scaled(s, "ms"@, false, 6)
    } else {
        scaled(s, "s"@, false, 9)
    }
}

/// The time that `s` gives, rounded to the nearest nanosecond, halves up, and
/// held to 64 bits.
pub open spec fn time_nanos(s: Seq<char>) -> Option<u64> {
    match time_number(s) {
        Some(n) => Some(saturate(n.rounded())),
        None => None,
    }
}

/// The count that `s` gives: the first numeral before `m`, in thousandths;
/// where there is none, the numeral at the end of `s`; then the first before
/// `k`, in thousands; then `M`, in millions; then `G`, in thousand millions.
pub open spec fn count_number(s: Seq<char>) -> Option<Number> {
    if scaled(s, "m"@, false, -3) is Some {
        scaled(s, "m"@, false, -3)
    } else if scaled(s, ""@, true, 0) is Some {
        scaled(s, ""@, true, 0)
    } else if scaled(s, "k"@, false, 3) is Some {
        scaled(s, "k"@, false, 3)
    } else if scaled(s, "M"@, false, 6) is Some {
        scaled(s, "M"@, false, 6)
    } else {
        scaled(s, "G"@, false, 9)
    }
}

/// The length of the time that starts at position `p`: a numeral and, directly
/// after it, `s`, `ms`, `us` or `ns`. Zero where none starts there.
pub open spec fn time_token_len(s: Seq<char>, p: int) -> nat {
    let n = numeral_len(s, p);
    let e = p + n;
    if n == 0 {
        0
    } else if e < s.len() && s[e] == 's' {
        n + 1
    } else if e + 1 < s.len() && (s[e] == 'm' || s[e] == 'u' || s[e] == 'n') && s[e + 1] == 's' {
        n + 2
    } else {
        0
    }
}

/// The length of the count that starts at position `p`: a numeral and, where
/// one follows directly, the unit `m`, `k`, `M` or `G`. Zero where none starts
/// there.
pub open spec fn count_token_len(s: Seq<char>, p: int) -> nat {
    let n = numeral_len(s, p);
    let e = p + n;
    if n == 0 {
        0
    } else if e < s.len() && (s[e] == 'm' || s[e] == 'k' || s[e] == 'M' || s[e] == 'G') {
        n + 1
    } else {
        n
    }
}

/// The length of the value of the given quantity that starts at position `p`.
pub open spec fn token_len(s: Seq<char>, p: int, quantity: Quantity) -> nat {
    match quantity {
        Quantity::Time => time_token_len(s, p),
        Quantity::Count => count_token_len(s, p),
    }
}

/// The field that follows position `p`: at least one whitespace character,
/// then a value of the given quantity. The result is where the value starts
/// and where it ends.
#[verifier::opaque]
pub open spec fn next_field(s: Seq<char>, p: int, quantity: Quantity) -> Option<(int, int)> {
    let start = p + space_run(s, p);
    let len = token_len(s, start, quantity);
    if space_run(s, p) > 0 && len > 0 {
        Some((start, start + len))
    } else {
        None
    }
}

/// The three fields that follow position `p`: mean, standard deviation and
/// maximum, each as the place where it starts and where it ends.
pub open spec fn fields_after(s: Seq<char>, p: int, quantity: Quantity) -> Option<
    MetricData<(int, int)>,
> {
    match next_field(s, p, quantity) {
        None => None,
        Some(mean) => match next_field(s, mean.1, quantity) {
            None => None,
            Some(std_dev) => match next_field(s, std_dev.1, quantity) {
                None => None,
                Some(max) => Some(MetricData { mean, std_dev, max }),
            },
        },
    }
}

/// The fields of the first `label`, from position `from` on, that three
/// fields follow.
pub open spec fn find_fields(
    s: Seq<char>,
    label: Seq<char>,
    quantity: Quantity,
    from: int,
) -> Option<MetricData<(int, int)>>
    decreases s.len() - from,
{
    if from < 0 || from >= s.len() {
        None
    } else if has_at(s, from, label) && fields_after(s, from + label.len(), quantity) is Some {
        fields_after(s, from + label.len(), quantity)
    } else {
        find_fields(s, label, quantity, from + 1)
    }
}

/// The text of `s` between the two positions of `span`.
pub open spec fn span_text(s: Seq<char>, span: (int, int)) -> Seq<char> {
    s.subrange(span.0, span.1)
}

/// The power of ten by which the unit of the time at position `p` multiplies
/// its numeral to give nanoseconds.
pub open spec fn time_unit_at(s: Seq<char>, p: int) -> int {
    let e = p + numeral_len(s, p);
    if s[e] == 's' {
        9
    } else if s[e] == 'm' {
        6
    } else if s[e] == 'u' {
        3
    } else {
        0
    }
}

/// The power of ten by which the unit of the count at position `p` multiplies
/// its numeral; zero where the count has no unit.
pub open spec fn count_unit_at(s: Seq<char>, p: int) -> int {
    let e = p + numeral_len(s, p);
    if e >= s.len() {
        0
    } else if s[e] == 'm' {
        -3
    } else if s[e] == 'k' {
        3
    } else if s[e] == 'M' {
        6
    } else if s[e] == 'G' {
        9
    } else {
        0
    }
}

/// The time that starts at position `p`, rounded to the nearest nanosecond,
/// halves up, and held to 64 bits.
pub open spec fn time_at(s: Seq<char>, p: int) -> u64 {
    saturate(numeral_number(s, p, time_unit_at(s, p)).rounded())
}

/// The count that starts at position `p`.
pub open spec fn count_at(s: Seq<char>, p: int) -> Number {
    numeral_number(s, p, count_unit_at(s, p))
}

/// The latencies that a line gives: the three times after the first
/// `Latency` that three times follow.
pub open spec fn latency_of_line(s: Seq<char>) -> Option<MetricData<u64>> {
    match find_fields(s, "Latency"@, Quantity::Time, 0) {
        Some(f) => Some(
            MetricData {
                mean: time_at(s, f.mean.0),
                std_dev: time_at(s, f.std_dev.0),
                max: time_at(s, f.max.0),
            },
        ),
        None => None,
    }
}

/// The request rates that a line gives: the three counts after the first
/// `Req/Sec` that three counts follow.
pub open spec fn throughput_of_line(s: Seq<char>) -> Option<MetricData<Number>> {
    match find_fields(s, "Req/Sec"@, Quantity::Count, 0) {
        Some(f) => Some(
            MetricData {
                mean: count_at(s, f.mean.0),
                std_dev: count_at(s, f.std_dev.0),
                max: count_at(s, f.max.0),
            },
        ),
        None => None,
    }
}

/// `word` stands somewhere in `s`.
pub open spec fn contains_word(s: Seq<char>, word: Seq<char>) -> bool {
    exists|i: int| has_at(s, i, word)
}

/// `word` stands somewhere in `s` with a whitespace character directly after
/// it.
pub open spec fn contains_word_then_space(s: Seq<char>, word: Seq<char>) -> bool {
    exists|i: int| word_then_space_at(s, i, word)
}

/// `word` stands in `s` at position `i` with a whitespace character directly
/// after it.
pub open spec fn word_then_space_at(s: Seq<char>, i: int, word: Seq<char>) -> bool {
    has_at(s, i, word) && i + word.len() < s.len() && is_space(s[i + word.len()])
}

/// The kind of a line.
pub open spec fn line_kind(s: Seq<char>) -> LineKind {
    if contains_word_then_space(s, "Latency"@) {
        LineKind::Latency
    } else if contains_word(s, "Req/Sec"@) {
        LineKind::Throughput
    } else {
        LineKind::Other
    }
}

/// The metric that a line gives: a latency line its three latencies, a
/// throughput line its three request rates; nothing where the line is of
/// neither kind, or lacks the three fields after its label.
pub open spec fn metric_of_line(s: Seq<char>) -> Option<MetricValue> {
    match line_kind(s) {
        LineKind::Latency => match latency_of_line(s) {
            Some(d) => Some(MetricValue::Latency(d)),
            None => None,
        },
        LineKind::Throughput => match throughput_of_line(s) {
            Some(d) => Some(MetricValue::Qps(d)),
            None => None,
        },
        LineKind::Other => None,
    }
}

/// `span` is the place of a value of the given quantity in `s`.
pub open spec fn is_token_span(s: Seq<char>, span: (int, int), quantity: Quantity) -> bool {
    &&& 0 <= span.0 < span.1 <= s.len()
    &&& span.1 == span.0 + token_len(s, span.0, quantity)
}

/// Each of the three spans is the place of a value of the given quantity.
pub open spec fn spans_are_tokens(
    s: Seq<char>,
    f: MetricData<(int, int)>,
    quantity: Quantity,
) -> bool {
    &&& is_token_span(s, f.mean, quantity)
    &&& is_token_span(s, f.std_dev, quantity)
    &&& is_token_span(s, f.max, quantity)
}

/// `line` without the carriage return at its end, where it has one.
pub open spec fn without_cr(line: Seq<char>) -> Seq<char> {
    if line.len() > 0 && line.last() == '\r' {
        line.drop_last()
    } else {
        line
    }
}

/// The lines of `s` from the line on that starts at position `start`, where
/// the characters from `start` up to `i` hold no line feed. A line ends with
/// a line feed, or with a carriage return and a line feed, or with the text;
/// the line ending is no part of the line.
pub open spec fn lines_scan(s: Seq<char>, start: int, i: int) -> Seq<Seq<char>>
    decreases s.len() - i,
{
    if i < start || start < 0 || i >= s.len() {
        if 0 <= start < s.len() {
            seq![s.subrange(start, s.len() as int)]
        } else {
            Seq::empty()
        }
    } else if s[i] == '\n' {
        seq![without_cr(s.subrange(start, i))] + lines_scan(s, i + 1, i + 1)
    } else {
        lines_scan(s, start, i + 1)
    }
}

/// The lines of a text.
pub open spec fn lines(s: Seq<char>) -> Seq<Seq<char>> {
    lines_scan(s, 0, 0)
}

/// The metrics that the lines give, in the order of the lines; a line that
/// gives none is passed over.
pub open spec fn metrics_of_lines(ls: Seq<Seq<char>>) -> Seq<MetricValue>
    decreases ls.len(),
{
    if ls.len() == 0 {
        Seq::empty()
    } else {
        match metric_of_line(ls.last()) {
            Some(m) => metrics_of_lines(ls.drop_last()).push(m),
            None => metrics_of_lines(ls.drop_last()),
        }
    }
}

/// The metrics that a block of the load generator's output gives.
pub open spec fn wrk_metrics(s: Seq<char>) -> Seq<MetricValue> {
    metrics_of_lines(lines(s))
}

} // verus!
