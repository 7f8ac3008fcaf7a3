//! What holds of blocks of load-generator output, whatever their lines.

use crate::grammar::{
    find_fields, lines, lines_scan, metric_of_line, metrics_of_lines, without_cr, wrk_metrics,
};
use crate::line_laws::lemma_metric_without_trailing_whitespace;
use crate::metrics::{MetricValue, Quantity};
use vstd::prelude::*;

verus! {

/// A text that could stand as one line of a block: it holds no line feed.
pub open spec fn is_line(s: Seq<char>) -> bool {
    forall|i: int| 0 <= i < s.len() ==> s[i] != '\n'
}

/// `first`, a line feed, and `second`.
pub open spec fn two_lines(first: Seq<char>, second: Seq<char>) -> Seq<char> {
    first + seq!['\n'] + second
}

/// Scanning for the end of a line passes over characters that are no line
/// feed.
proof fn lemma_scan_passes(s: Seq<char>, start: int, i: int, j: int)
    requires
        0 <= start <= i <= j <= s.len(),
        forall|k: int| i <= k < j ==> s[k] != '\n',
    ensures
        lines_scan(s, start, i) == lines_scan(s, start, j),
    decreases j - i,
{
    if i < j {
        lemma_scan_passes(s, start, i + 1, j);
    }
}

/// A block of two lines has these two lines; a carriage return at the end of
/// the first belongs to the line ending.
pub proof fn lemma_lines_of_two(first: Seq<char>, second: Seq<char>)
    requires
        is_line(first),
        is_line(second),
        second.len() > 0,
    ensures
        lines(two_lines(first, second)) == seq![without_cr(first), second],
{
    let s = two_lines(first, second);
    let n = first.len() as int;
    assert(s.len() == n + 1 + second.len());
    assert forall|k: int| 0 <= k < n implies s[k] != '\n' by {
        assert(s[k] == first[k]);
    }
    assert(s[n] == '\n');
    assert forall|k: int| n + 1 <= k < s.len() implies s[k] != '\n' by {
        assert(s[k] == second[k - n - 1]);
    }
    lemma_scan_passes(s, 0, 0, n);
    assert(s.subrange(0, n) =~= first);
    lemma_scan_passes(s, n + 1, n + 1, s.len() as int);
    assert(s.subrange(n + 1, s.len() as int) =~= second);
    assert(lines_scan(s, n + 1, s.len() as int) =~= seq![second]);
    assert(lines_scan(s, 0, n) =~= seq![without_cr(first)] + lines_scan(s, n + 1, n + 1));
    assert(seq![without_cr(first)] + seq![second] =~= seq![without_cr(first), second]);
}

/// The metrics of two lines are what the first gives, then what the second
/// gives.
proof fn lemma_metrics_of_two(first: Seq<char>, second: Seq<char>)
    ensures
        metrics_of_lines(seq![first, second]) == match (
            metric_of_line(first),
            metric_of_line(second),
        ) {
            (Some(a), Some(b)) => seq![a, b],
            (Some(a), None) => seq![a],
            (None, Some(b)) => seq![b],
            (None, None) => Seq::<MetricValue>::empty(),
        },
{
    let both = seq![first, second];
    let one = seq![first];
    assert(both.drop_last() =~= one);
    assert(both.last() == second);
    assert(one.drop_last() =~= Seq::<Seq<char>>::empty());
    assert(one.last() == first);
    assert(metrics_of_lines(Seq::<Seq<char>>::empty()) =~= Seq::<MetricValue>::empty());
    let from_first = metrics_of_lines(one);
    match metric_of_line(first) {
        Some(a) => {
            assert(from_first =~= seq![a]);
            match metric_of_line(second) {
                Some(b) => {
                    assert(seq![a].push(b) =~= seq![a, b]);
                },
                None => {},
            }
        },
        None => {
            assert(from_first =~= Seq::<MetricValue>::empty());
            match metric_of_line(second) {
                Some(b) => {
                    assert(Seq::<MetricValue>::empty().push(b) =~= seq![b]);
                },
                None => {},
            }
        },
    }
}

/// A block of a latency line and a throughput line, in either order, gives
/// exactly one latency metric and one throughput metric, in the order of the
/// lines, and each is what its line gives when read alone.
pub proof fn lemma_block_of_latency_and_throughput(latency_line: Seq<char>, qps_line: Seq<char>)
    requires
        is_line(latency_line),
        is_line(qps_line),
        metric_of_line(latency_line) matches Some(m) && m is Latency,
        metric_of_line(qps_line) matches Some(m) && m is Qps,
    ensures
        wrk_metrics(two_lines(latency_line, qps_line)) == seq![
            metric_of_line(latency_line).unwrap(),
            metric_of_line(qps_line).unwrap(),
        ],
        wrk_metrics(two_lines(qps_line, latency_line)) == seq![
            metric_of_line(qps_line).unwrap(),
            metric_of_line(latency_line).unwrap(),
        ],
{
    lemma_metric_line_not_empty(latency_line);
    lemma_metric_line_not_empty(qps_line);
    lemma_lines_of_two(latency_line, qps_line);
    lemma_lines_of_two(qps_line, latency_line);
    lemma_metric_without_cr(latency_line);
    lemma_metric_without_cr(qps_line);
    lemma_metrics_of_two(without_cr(latency_line), qps_line);
    lemma_metrics_of_two(without_cr(qps_line), latency_line);
}

/// A line that gives a metric is not empty.
proof fn lemma_metric_line_not_empty(s: Seq<char>)
    requires
        metric_of_line(s) is Some,
    ensures
        s.len() > 0,
{
    if s.len() == 0 {
        assert(find_fields(s, "Latency"@, Quantity::Time, 0) is None);
        assert(find_fields(s, "Req/Sec"@, Quantity::Count, 0) is None);
    }
}

/// A line that gives a metric gives the same metric without the carriage
/// return at its end.
proof fn lemma_metric_without_cr(s: Seq<char>)
    requires
        metric_of_line(s) is Some,
    ensures
        metric_of_line(without_cr(s)) == metric_of_line(s),
{
    if s.len() > 0 && s.last() == '\r' {
        let after = seq!['\r'];
        assert(s =~= s.drop_last() + after);
        lemma_metric_without_trailing_whitespace(s.drop_last(), after);
    }
}

} // verus!
