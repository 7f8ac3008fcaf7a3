//! Reads the summary that the load generator prints, by the grammar of its
//! numbers, lines and blocks.

use crate::decimal::{Decimal, Number};
use crate::grammar::{
    contains_word, contains_word_then_space, count_at, count_number, fields_after, find_fields,
    find_numeral, is_token_span, latency_of_line, line_kind, lines, lines_scan, metric_of_line,
    metrics_of_lines, next_field, numeral_digits, numeral_len, numeral_number, scaled,
    spans_are_tokens, throughput_of_line, time_at, time_nanos, token_len, without_cr,
    word_then_space_at, wrk_metrics,
};
use crate::text::{
    char_digit, char_is_space, chars_of, count_digits, count_spaces, digits_at, has_at, is_digit,
    lemma_digit_run_bound, word_at,
};
use crate::token_laws::{lemma_count_field_value, lemma_time_field_value};
use vstd::prelude::*;
use vstd::string::*;

verus! {

/// Mean, standard deviation and maximum of one measured quantity.
#[derive(Debug, Clone)]
pub struct MetricData<T> {
    pub mean: T,
    pub std_dev: T,
    pub max: T,
}

/// One summary line of the load generator, normalised: latencies in whole
/// nanoseconds, request rates in requests per second.
#[derive(Debug, Clone)]
pub enum Metric {
    Latency(MetricData<u64>),
    Qps(MetricData<Decimal>),
}

/// The mathematical value of a [`Metric`].
pub enum MetricValue {
    Latency(MetricData<u64>),
    Qps(MetricData<Number>),
}

impl View for Metric {
    type V = MetricValue;

    open spec fn view(&self) -> MetricValue {
        match *self {
            Metric::Latency(d) => MetricValue::Latency(d),
            Metric::Qps(d) => MetricValue::Qps(
                MetricData { mean: d.mean@, std_dev: d.std_dev@, max: d.max@ },
            ),
        }
    }
}

impl Metric {
    /// Every request rate in this metric is a well-formed decimal.
    pub open spec fn wf(&self) -> bool {
        match *self {
            Metric::Latency(_) => true,
            Metric::Qps(d) => d.mean.wf() && d.std_dev.wf() && d.max.wf(),
        }
    }
}

/// The values of a list of metrics, in order.
pub open spec fn metric_values(metrics: Seq<Metric>) -> Seq<MetricValue> {
    Seq::new(metrics.len(), |i: int| metrics[i]@)
}

/// The two kinds of quantity that a summary line gives.
#[derive(Debug, Clone, Copy, PartialEq, Eq, Structural)]
pub enum Quantity {
    Time,
    Count,
}

/// A text that was taken for a number with a unit and has none of the units
/// known for its quantity.
#[derive(Debug)]
pub struct ParseError {
    /// What the text was expected to give.
    pub quantity: Quantity,
    /// The offending text.
    pub token: String,
}

impl ParseError {
    /// The message of this error, for the operator.
    pub open spec fn spec_message(&self) -> Seq<char> {
        match self.quantity {
            Quantity::Time => "Could not parse time "@ + self.token@,
            Quantity::Count => "Could not parse count "@ + self.token@,
        }
    }

    /// A message that names the offending text.
    pub fn message(&self) -> (text: String)
        ensures
            text@ == self.spec_message(),
    {
        let mut text = String::new();
        match self.quantity {
            Quantity::Time => text.append("Could not parse time "),
            Quantity::Count => text.append("Could not parse count "),
        }
        text.append(self.token.as_str());
        assert(text@ =~= self.spec_message());
        text
    }
}

/// Reads the digits of the numeral that starts at position `i`.
fn read_numeral(s: &Vec<char>, i: usize, unit: i8) -> (r: Decimal)
    requires
        i <= s.len(),
        numeral_len(s@, i as int) > 0,
    ensures
        r@ == numeral_number(s@, i as int, unit as int),
        r.wf(),
{
    let n = count_digits(s, i);
    proof {
        lemma_digit_run_bound(s@, i as int);
    }
    let mut digits: Vec<u8> = Vec::new();
    let mut k: usize = 0;
    while k < n
        invariant
            k <= n,
            i + n <= s.len(),
            forall|j: int| i <= j < i + n ==> is_digit(#[trigger] s@[j]),
            digits@ == digits_at(s@, i as int, k as nat),
            forall|j: int| 0 <= j < digits@.len() ==> digits@[j] <= 9,
        decreases n - k,
    {
        digits.push(char_digit(s[i + k]));
        assert(digits@ =~= digits_at(s@, i as int, (k + 1) as nat));
        k += 1;
    }
    let dot = i + n;
    let mut f: usize = 0;
    if dot < s.len() && s[dot] == '.' {
        f = count_digits(s, dot + 1);
        proof {
            lemma_digit_run_bound(s@, dot + 1);
        }
        let ghost whole = digits@;
        let mut k: usize = 0;
        while k < f
            invariant
                k <= f,
                dot + 1 + f <= s.len(),
                forall|j: int| dot + 1 <= j < dot + 1 + f ==> is_digit(#[trigger] s@[j]),
                digits@ == whole + digits_at(s@, dot + 1, k as nat),
                forall|j: int| 0 <= j < digits@.len() ==> digits@[j] <= 9,
            decreases f - k,
        {
            digits.push(char_digit(s[dot + 1 + k]));
            assert(digits@ =~= whole + digits_at(s@, dot + 1, (k + 1) as nat));
            k += 1;
        }
    }
    assert(digits@ =~= numeral_digits(s@, i as int));
    Decimal { digits, exponent: unit as i128 - f as i128 }
}

/// Measures the numeral that starts at position `i`.
fn measure_numeral(s: &Vec<char>, i: usize) -> (n: usize)
    requires
        i <= s.len(),
    ensures
        n == numeral_len(s@, i as int),
        i + n <= s.len(),
{
    let whole = count_digits(s, i);
    if whole == 0 {
        return 0;
    }
    let dot = i + whole;
    if dot < s.len() && s[dot] == '.' {
        let f = count_digits(s, dot + 1);
        if f > 0 {
            return whole + 1 + f;
        }
    }
    whole
}

/// Finds the first numeral in `s` that `suffix` follows and scales it.
fn scale_numeral(s: &Vec<char>, suffix: &str, to_end: bool, unit: i8) -> (r: Option<Decimal>)
    ensures
        match scaled(s@, suffix@, to_end, unit as int) {
            Some(n) => r is Some && r->0@ == n && r->0.wf(),
            None => r is None,
        },
{
    let tail = chars_of(suffix);
    let mut from: usize = 0;
    while from < s.len()
        invariant
            from <= s.len(),
            tail@ == suffix@,
            find_numeral(s@, suffix@, to_end, 0) == find_numeral(s@, suffix@, to_end, from as int),
        decreases s.len() - from,
    {
        let n = measure_numeral(s, from);
        if n > 0 && word_at(s, from + n, &tail) && (!to_end || from + n + tail.len() == s.len()) {
            return Some(read_numeral(s, from, unit));
        }
        from += 1;
    }
    None
}

/// The time that the characters give, in nanoseconds.
fn time_of_chars(s: &Vec<char>) -> (r: Option<u64>)
    ensures
        r == time_nanos(s@),
{
    if let Some(d) = scale_numeral(s, "ns", false, 0) {
        return Some(d.round_saturating());
    }
    if let Some(d) = scale_numeral(s, "us", false, 3) {
        return Some(d.round_saturating());
    }
    if let Some(d) = scale_numeral(s, "ms", false, 6) {
        return Some(d.round_saturating());
    }
    if let Some(d) = scale_numeral(s, "s", false, 9) {
        return Some(d.round_saturating());
    }
    None
}

/// The count that the characters give.
fn count_of_chars(s: &Vec<char>) -> (r: Option<Decimal>)
    ensures
        match count_number(s@) {
            Some(n) => r is Some && r->0@ == n && r->0.wf(),
            None => r is None,
        },
{
    if let Some(d) = scale_numeral(s, "m", false, -3) {
        return Some(d);
    }
    if let Some(d) = scale_numeral(s, "", true, 0) {
        return Some(d);
    }
    if let Some(d) = scale_numeral(s, "k", false, 3) {
        return Some(d);
    }
    if let Some(d) = scale_numeral(s, "M", false, 6) {
        return Some(d);
    }
    scale_numeral(s, "G", false, 9)
}

/// Converts a time with its unit (`ns`, `us`, `ms` or `s`) to whole
/// nanoseconds: rounded to the nearest, and held to 64 bits. The units are
/// tried in that order, and the first numeral that one of them follows
/// counts. A text without such a numeral is an error that carries the text.
pub fn time_str_into_duration(time_str: &str) -> (r: Result<u64, ParseError>)
    ensures
        match time_nanos(time_str@) {
            Some(nanos) => r is Ok && r->Ok_0 == nanos,
            None => r is Err && r->Err_0.quantity == Quantity::Time && r->Err_0.token@
                == time_str@,
        },
{
    let chars = chars_of(time_str);
    match time_of_chars(&chars) {
        Some(nanos) => Ok(nanos),
        None => Err(ParseError { quantity: Quantity::Time, token: time_str.to_owned() }),
    }
}

/// Converts a count with its unit (`m` for thousandths, none, `k`, `M` or
/// `G`) to an exact decimal number. The units are tried in that order, a count
/// without unit has to end the text, and the first numeral that fits counts.
/// A text without such a numeral is an error that carries the text.
pub fn str_into_count(count_str: &str) -> (r: Result<Decimal, ParseError>)
    ensures
        match count_number(count_str@) {
            Some(n) => r is Ok && r->Ok_0@ == n && r->Ok_0.wf(),
            None => r is Err && r->Err_0.quantity == Quantity::Count && r->Err_0.token@
                == count_str@,
        },
{
    let chars = chars_of(count_str);
    match count_of_chars(&chars) {
        Some(d) => Ok(d),
        None => Err(ParseError { quantity: Quantity::Count, token: count_str.to_owned() }),
    }
}

/// What a line of the load generator's output is taken for.
#[derive(Debug, Clone, Copy, PartialEq, Eq, Structural)]
pub enum LineKind {
    /// The line holds the label `Latency` with whitespace after it.
    Latency,
    /// The line is no latency line and holds the label `Req/Sec`.
    Throughput,
    /// The line holds neither.
    Other,
}

/// Measures the value of the given quantity that starts at position `p`.
fn measure_token(s: &Vec<char>, p: usize, quantity: Quantity) -> (n: usize)
    requires
        p <= s.len(),
    ensures
        n == token_len(s@, p as int, quantity),
        p + n <= s.len(),
{
    let n = measure_numeral(s, p);
    if n == 0 {
        return 0;
    }
    let e = p + n;
    match quantity {
        Quantity::Time => {
            if e < s.len() && s[e] == 's' {
                n + 1
            } else if e < s.len() - 1 && (s[e] == 'm' || s[e] == 'u' || s[e] == 'n') && s[e + 1]
                == 's' {
                n + 2
            } else {
                0
            }
        },
        Quantity::Count => {
            if e < s.len() && (s[e] == 'm' || s[e] == 'k' || s[e] == 'M' || s[e] == 'G') {
                n + 1
            } else {
                n
            }
        },
    }
}

/// Reads the field that follows position `p`.
fn read_field(s: &Vec<char>, p: usize, quantity: Quantity) -> (r: Option<(usize, usize)>)
    requires
        p <= s.len(),
    ensures
        match next_field(s@, p as int, quantity) {
            Some(span) => r is Some && r.unwrap().0 == span.0 && r.unwrap().1 == span.1
                && is_token_span(s@, span, quantity),
            None => r is None,
        },
{
    proof {
        reveal(next_field);
    }
    let w = count_spaces(s, p);
    if w == 0 {
        return None;
    }
    let start = p + w;
    let len = measure_token(s, start, quantity);
    if len == 0 {
        return None;
    }
    Some((start, start + len))
}

/// Reads the three fields that follow position `p`.
fn read_fields(s: &Vec<char>, p: usize, quantity: Quantity) -> (r: Option<
    MetricData<(usize, usize)>,
>)
    requires
        p <= s.len(),
    ensures
        match fields_after(s@, p as int, quantity) {
            Some(f) => r is Some && spans_match(r.unwrap(), f) && spans_are_tokens(s@, f, quantity),
            None => r is None,
        },
{
    let mean = match read_field(s, p, quantity) {
        Some(span) => span,
        None => {
            return None;
        },
    };
    let std_dev = match read_field(s, mean.1, quantity) {
        Some(span) => span,
        None => {
            return None;
        },
    };
    let max = match read_field(s, std_dev.1, quantity) {
        Some(span) => span,
        None => {
            return None;
        },
    };
    Some(MetricData { mean, std_dev, max })
}

/// The spans found are the spans of the grammar.
spec fn spans_match(found: MetricData<(usize, usize)>, f: MetricData<(int, int)>) -> bool {
    &&& found.mean.0 == f.mean.0 && found.mean.1 == f.mean.1
    &&& found.std_dev.0 == f.std_dev.0 && found.std_dev.1 == f.std_dev.1
    &&& found.max.0 == f.max.0 && found.max.1 == f.max.1
}

/// Finds the fields of the first `label` that three fields follow.
fn locate_fields(s: &Vec<char>, label: &str, quantity: Quantity) -> (r: Option<
    MetricData<(usize, usize)>,
>)
    ensures
        match find_fields(s@, label@, quantity, 0) {
            Some(f) => r is Some && spans_match(r.unwrap(), f) && spans_are_tokens(s@, f, quantity),
            None => r is None,
        },
{
    let word = chars_of(label);
    let mut from: usize = 0;
    while from < s.len()
        invariant
            from <= s.len(),
            word@ == label@,
            find_fields(s@, label@, quantity, 0) == find_fields(s@, label@, quantity, from as int),
        decreases s.len() - from,
    {
        if word_at(s, from, &word) {
            if let Some(found) = read_fields(s, from + word.len(), quantity) {
                return Some(found);
            }
        }
        from += 1;
    }
    None
}

/// The characters of `s` from position `start` up to position `end`.
fn copy_range(s: &Vec<char>, start: usize, end: usize) -> (r: Vec<char>)
    requires
        start <= end <= s.len(),
    ensures
        r@ == s@.subrange(start as int, end as int),
{
    let mut r: Vec<char> = Vec::new();
    let mut k: usize = start;
    while k < end
        invariant
            start <= k <= end <= s.len(),
            r@ == s@.subrange(start as int, k as int),
        decreases end - k,
    {
        r.push(s[k]);
        assert(r@ =~= s@.subrange(start as int, k + 1));
        k += 1;
    }
    assert(r@ =~= s@.subrange(start as int, end as int));
    r
}

/// Tells whether `word` stands somewhere in `s`; with `then_space`, whether it
/// does so with a whitespace character directly after it.
fn holds_word(s: &Vec<char>, label: &str, then_space: bool) -> (found: bool)
    ensures
        found == if then_space {
            contains_word_then_space(s@, label@)
        } else {
            contains_word(s@, label@)
        },
{
    let word = chars_of(label);
    let mut i: usize = 0;
    while i < s.len()
        invariant
            i <= s.len(),
            word@ == label@,
            forall|j: int| 0 <= j < i ==> !has_at(s@, j, label@) || (then_space
                && !word_then_space_at(s@, j, label@)),
        decreases s.len() - i,
    {
        if word_at(s, i, &word) {
            if !then_space {
                return true;
            }
            let after = i + word.len();
            if after < s.len() && char_is_space(s[after]) {
                assert(word_then_space_at(s@, i as int, label@));
                return true;
            }
        }
        i += 1;
    }
    if word.len() == 0 && !then_space {
        assert(s@.subrange(s@.len() as int, s@.len() as int) =~= label@);
        assert(has_at(s@, s@.len() as int, label@));
        return true;
    }
    assert forall|j: int| !(has_at(s@, j, label@) && (then_space ==> word_then_space_at(
        s@,
        j,
        label@,
    ))) by {
        if has_at(s@, j, label@) && j >= s@.len() {
            assert(word@.len() == 0);
        }
    }
    false
}

/// Tells the kind of a line.
fn kind_of_chars(s: &Vec<char>) -> (kind: LineKind)
    ensures
        kind == line_kind(s@),
{
    if holds_word(s, "Latency", true) {
        LineKind::Latency
    } else if holds_word(s, "Req/Sec", false) {
        LineKind::Throughput
    } else {
        LineKind::Other
    }
}

/// The time that stands in `s` at `span`, in nanoseconds.
fn time_of_span(s: &Vec<char>, span: (usize, usize)) -> (r: u64)
    requires
        is_token_span(s@, (span.0 as int, span.1 as int), Quantity::Time),
    ensures
        r == time_at(s@, span.0 as int),
{
    let token = copy_range(s, span.0, span.1);
    proof {
        lemma_time_field_value(s@, (span.0 as int, span.1 as int));
    }
    time_of_chars(&token).unwrap()
}

/// The count that stands in `s` at `span`.
fn count_of_span(s: &Vec<char>, span: (usize, usize)) -> (r: Decimal)
    requires
        is_token_span(s@, (span.0 as int, span.1 as int), Quantity::Count),
    ensures
        r@ == count_at(s@, span.0 as int),
        r.wf(),
{
    let token = copy_range(s, span.0, span.1);
    proof {
        lemma_count_field_value(s@, (span.0 as int, span.1 as int));
    }
    count_of_chars(&token).unwrap()
}

/// The latencies that the characters of a line give.
fn latency_of_chars(s: &Vec<char>) -> (r: Option<MetricData<u64>>)
    ensures
        r == latency_of_line(s@),
{
    match locate_fields(s, "Latency", Quantity::Time) {
        None => None,
        Some(f) => {
            let mean = time_of_span(s, f.mean);
            let std_dev = time_of_span(s, f.std_dev);
            let max = time_of_span(s, f.max);
            Some(MetricData { mean, std_dev, max })
        },
    }
}

/// The values of three decimals.
pub open spec fn decimal_values(d: MetricData<Decimal>) -> MetricData<Number> {
    MetricData { mean: d.mean@, std_dev: d.std_dev@, max: d.max@ }
}

/// The request rates that the characters of a line give.
fn throughput_of_chars(s: &Vec<char>) -> (r: Option<MetricData<Decimal>>)
    ensures
        match throughput_of_line(s@) {
            Some(d) => r is Some && decimal_values(r.unwrap()) == d && Metric::Qps(r.unwrap()).wf(),
            None => r is None,
        },
{
    match locate_fields(s, "Req/Sec", Quantity::Count) {
        None => None,
        Some(f) => {
            let mean = count_of_span(s, f.mean);
            let std_dev = count_of_span(s, f.std_dev);
            let max = count_of_span(s, f.max);
            Some(MetricData { mean, std_dev, max })
        },
    }
}

/// The metric that the characters of a line give.
fn metric_of_chars(s: &Vec<char>) -> (r: Option<Metric>)
    ensures
        match metric_of_line(s@) {
            Some(v) => r is Some && r.unwrap()@ == v && r.unwrap().wf(),
            None => r is None,
        },
{
    match kind_of_chars(s) {
        LineKind::Latency => match latency_of_chars(s) {
            Some(d) => Some(Metric::Latency(d)),
            None => None,
        },
        LineKind::Throughput => match throughput_of_chars(s) {
            Some(d) => Some(Metric::Qps(d)),
            None => None,
        },
        LineKind::Other => None,
    }
}

impl MetricData<u64> {
    /// Reads the three latencies of a latency line, in nanoseconds: the times
    /// after the first `Latency` that whitespace and three times follow, each
    /// with whitespace before it. `None` where the line has no such label.
    pub fn try_from_wrk_latency(latency_line: &str) -> (r: Option<Self>)
        ensures
            r == latency_of_line(latency_line@),
    {
        let chars = chars_of(latency_line);
        latency_of_chars(&chars)
    }
}

impl MetricData<Decimal> {
    /// Reads the three request rates of a throughput line: the counts after
    /// the first `Req/Sec` that whitespace and three counts follow, each with
    /// whitespace before it. `None` where the line has no such label.
    pub fn try_from_wrk_qps(qps_line: &str) -> (r: Option<Self>)
        ensures
            match throughput_of_line(qps_line@) {
                Some(d) => r is Some && decimal_values(r.unwrap()) == d && Metric::Qps(
                    r.unwrap(),
                ).wf(),
                None => r is None,
            },
    {
        let chars = chars_of(qps_line);
        throughput_of_chars(&chars)
    }
}

impl Metric {
    /// Reads one line of the load generator's output: a latency line gives
    /// its latencies, a throughput line its request rates, any other line
    /// nothing. A line with `Latency` and whitespace after it is a latency
    /// line, whatever else it holds.
    pub fn try_from_wrk_output(line: &str) -> (r: Option<Self>)
        ensures
            match metric_of_line(line@) {
                Some(v) => r is Some && r.unwrap()@ == v && r.unwrap().wf(),
                None => r is None,
            },
    {
        let chars = chars_of(line);
        metric_of_chars(&chars)
    }
}

/// The texts of a list of lines.
pub open spec fn line_texts(ls: Seq<Vec<char>>) -> Seq<Seq<char>> {
    Seq::new(ls.len(), |i: int| ls[i]@)
}

/// Splits a text into its lines.
fn split_lines(s: &Vec<char>) -> (ls: Vec<Vec<char>>)
    ensures
        line_texts(ls@) == lines(s@),
{
    let mut ls: Vec<Vec<char>> = Vec::new();
    let mut start: usize = 0;
    let mut i: usize = 0;
    assert(line_texts(ls@) =~= Seq::<Seq<char>>::empty());
    while i < s.len()
        invariant
            start <= i <= s.len(),
            line_texts(ls@) + lines_scan(s@, start as int, i as int) == lines(s@),
        decreases s.len() - i,
    {
        if s[i] == '\n' {
            let end = if start < i && s[i - 1] == '\r' {
                i - 1
            } else {
                i
            };
            let line = copy_range(s, start, end);
            let ghost before = line_texts(ls@);
            ls.push(line);
            proof {
                let cut = s@.subrange(start as int, i as int);
                if start < i && s[i - 1] == '\r' {
                    assert(cut.drop_last() =~= s@.subrange(start as int, i - 1));
                }
                assert(line@ == without_cr(cut));
                assert(line_texts(ls@) =~= before + seq![line@]);
                assert(before + (seq![without_cr(cut)] + lines_scan(s@, i + 1, i + 1))
                    =~= before + seq![line@] + lines_scan(s@, i + 1, i + 1));
            }
            start = i + 1;
        }
        i += 1;
    }
    if start < s.len() {
        let line = copy_range(s, start, s.len());
        let ghost before = line_texts(ls@);
        ls.push(line);
        assert(line_texts(ls@) =~= before + seq![line@]);
    } else {
        assert(line_texts(ls@) + Seq::<Seq<char>>::empty() =~= line_texts(ls@));
    }
    ls
}

/// Reads a block of the load generator's output: the metrics of its lines, in
/// the order of the lines. Lines that give no metric are passed over.
pub fn parse_wrk_output(out: &str) -> (metrics: Vec<Metric>)
    ensures
        metric_values(metrics@) == wrk_metrics(out@),
        forall|i: int| 0 <= i < metrics@.len() ==> (#[trigger] metrics@[i]).wf(),
{
    let chars = chars_of(out);
    let ls = split_lines(&chars);
    let mut metrics: Vec<Metric> = Vec::new();
    let mut k: usize = 0;
    assert(line_texts(ls@).take(0) =~= Seq::<Seq<char>>::empty());
    assert(metric_values(metrics@) =~= Seq::<MetricValue>::empty());
    while k < ls.len()
        invariant
            k <= ls.len(),
            line_texts(ls@) == lines(out@),
            metric_values(metrics@) == metrics_of_lines(line_texts(ls@).take(k as int)),
            forall|i: int| 0 <= i < metrics@.len() ==> (#[trigger] metrics@[i]).wf(),
        decreases ls.len() - k,
    {
        let ghost before = metric_values(metrics@);
        let ghost texts = line_texts(ls@);
        assert(texts.take(k + 1).drop_last() =~= texts.take(k as int));
        assert(texts.take(k + 1).last() == ls@[k as int]@);
        match metric_of_chars(&ls[k]) {
            Some(m) => {
                metrics.push(m);
                assert(metric_values(metrics@) =~= before.push(m@));
            },
            None => {},
        }
        k += 1;
    }
    assert(line_texts(ls@).take(ls@.len() as int) =~= line_texts(ls@));
    metrics
}

} // verus!
