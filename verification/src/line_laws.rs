//! What holds of summary lines, whatever surrounds them.

use crate::grammar::{
    contains_word, contains_word_then_space, count_at, fields_after, find_fields, fraction_len,
    is_token_span, latency_of_line, line_kind, metric_of_line, next_field, numeral_len, span_text,
    spans_are_tokens, throughput_of_line, time_at, token_len, word_then_space_at,
};
use crate::metrics::{LineKind, MetricData, Quantity};
use crate::text::{
    digit_run, has_at, is_digit, is_space, lemma_digit_run_bound, lemma_space_run_bound, space_run,
};
use crate::token_laws::{lemma_count_field_value, lemma_time_field_value};
use vstd::prelude::*;

verus! {

/// Every character of `w` is whitespace.
pub open spec fn all_space(w: Seq<char>) -> bool {
    forall|i: int| 0 <= i < w.len() ==> is_space(#[trigger] w[i])
}

/// `span`, moved to the right by `by` positions.
pub open spec fn moved(span: (int, int), by: int) -> (int, int) {
    (span.0 + by, span.1 + by)
}

/// Three spans, each moved to the right by `by` positions.
pub open spec fn moved_fields(f: MetricData<(int, int)>, by: int) -> MetricData<(int, int)> {
    MetricData { mean: moved(f.mean, by), std_dev: moved(f.std_dev, by), max: moved(f.max, by) }
}

/// A label of the summary lines: not empty, and with no whitespace at either
/// end.
pub open spec fn is_label(label: Seq<char>) -> bool {
    label.len() > 0 && !is_space(label[0]) && !is_space(label.last())
}

// ---------------------------------------------------------------------------
// Values end inside the text, and found fields are values
// ---------------------------------------------------------------------------
/// A numeral and a value end inside the text.
proof fn lemma_token_bound(s: Seq<char>, p: int, quantity: Quantity)
    requires
        0 <= p <= s.len(),
    ensures
        p + numeral_len(s, p) <= s.len(),
        p + token_len(s, p, quantity) <= s.len(),
{
    lemma_digit_run_bound(s, p);
    let dot = p + digit_run(s, p);
    if dot < s.len() {
        lemma_digit_run_bound(s, dot + 1);
    }
}

/// A field that follows a position of the text is a value in the text.
proof fn lemma_next_field_is_token(s: Seq<char>, p: int, quantity: Quantity)
    requires
        0 <= p <= s.len(),
        next_field(s, p, quantity) is Some,
    ensures
        is_token_span(s, next_field(s, p, quantity).unwrap(), quantity),
        p < next_field(s, p, quantity).unwrap().0,
{
    reveal(next_field);
    lemma_space_run_bound(s, p);
    lemma_token_bound(s, p + space_run(s, p), quantity);
}

/// The three fields that follow a position of the text are values in the
/// text.
proof fn lemma_fields_are_tokens(s: Seq<char>, p: int, quantity: Quantity)
    requires
        0 <= p <= s.len(),
        fields_after(s, p, quantity) is Some,
    ensures
        spans_are_tokens(s, fields_after(s, p, quantity).unwrap(), quantity),
{
    lemma_next_field_is_token(s, p, quantity);
    let mean = next_field(s, p, quantity).unwrap();
    lemma_next_field_is_token(s, mean.1, quantity);
    let std_dev = next_field(s, mean.1, quantity).unwrap();
    lemma_next_field_is_token(s, std_dev.1, quantity);
}

/// The fields found after a label are values in the text.
pub proof fn lemma_found_fields_are_tokens(
    s: Seq<char>,
    label: Seq<char>,
    quantity: Quantity,
    from: int,
)
    requires
        find_fields(s, label, quantity, from) is Some,
    ensures
        spans_are_tokens(s, find_fields(s, label, quantity, from).unwrap(), quantity),
    decreases s.len() - from,
{
    if 0 <= from < s.len() {
        if has_at(s, from, label) && fields_after(s, from + label.len(), quantity) is Some {
            lemma_fields_are_tokens(s, from + label.len(), quantity);
        } else {
            lemma_found_fields_are_tokens(s, label, quantity, from + 1);
        }
    }
}

// ---------------------------------------------------------------------------
// Text before a line
// ---------------------------------------------------------------------------
/// A run of digits is as long with text before it.
proof fn lemma_digit_run_moved(w: Seq<char>, s: Seq<char>, i: int)
    requires
        0 <= i <= s.len(),
    ensures
        digit_run(w + s, w.len() + i) == digit_run(s, i),
    decreases s.len() - i,
{
    if i < s.len() {
        assert((w + s)[w.len() + i] == s[i]);
        if is_digit(s[i]) {
            lemma_digit_run_moved(w, s, i + 1);
        }
    }
}

/// A run of whitespace is as long with text before it.
proof fn lemma_space_run_moved(w: Seq<char>, s: Seq<char>, i: int)
    requires
        0 <= i <= s.len(),
    ensures
        space_run(w + s, w.len() + i) == space_run(s, i),
    decreases s.len() - i,
{
    if i < s.len() {
        assert((w + s)[w.len() + i] == s[i]);
        if is_space(s[i]) {
            lemma_space_run_moved(w, s, i + 1);
        }
    }
}

/// A numeral and a value are as long with text before them.
proof fn lemma_token_moved(w: Seq<char>, s: Seq<char>, p: int, quantity: Quantity)
    requires
        0 <= p <= s.len(),
    ensures
        numeral_len(w + s, w.len() + p) == numeral_len(s, p),
        token_len(w + s, w.len() + p, quantity) == token_len(s, p, quantity),
{
    let t = w + s;
    let by = w.len() as int;
    lemma_digit_run_moved(w, s, p);
    lemma_digit_run_bound(s, p);
    let dot = p + digit_run(s, p);
    if dot < s.len() {
        assert(t[by + dot] == s[dot]);
        lemma_digit_run_moved(w, s, dot + 1);
        lemma_digit_run_bound(s, dot + 1);
    }
    assert(fraction_len(t, by + p) == fraction_len(s, p));
    let e = p + numeral_len(s, p);
    if e < s.len() {
        assert(t[by + e] == s[e]);
    }
    if e + 1 < s.len() {
        assert(t[by + e + 1] == s[e + 1]);
    }
}

/// The field that follows a position is the same field with text before
/// it, moved by the length of that text.
proof fn lemma_next_field_moved(w: Seq<char>, s: Seq<char>, p: int, quantity: Quantity)
    requires
        0 <= p <= s.len(),
    ensures
        next_field(w + s, w.len() + p, quantity) == match next_field(s, p, quantity) {
            Some(span) => Some(moved(span, w.len() as int)),
            None => None,
        },
{
    reveal(next_field);
    lemma_space_run_moved(w, s, p);
    lemma_space_run_bound(s, p);
    lemma_token_moved(w, s, p + space_run(s, p), quantity);
}

/// The three fields that follow a position are the same fields with text
/// before them, moved by the length of that text.
proof fn lemma_fields_moved(w: Seq<char>, s: Seq<char>, p: int, quantity: Quantity)
    requires
        0 <= p <= s.len(),
    ensures
        fields_after(w + s, w.len() + p, quantity) == match fields_after(s, p, quantity) {
            Some(f) => Some(moved_fields(f, w.len() as int)),
            None => None,
        },
{
    lemma_next_field_moved(w, s, p, quantity);
    if next_field(s, p, quantity) is Some {
        lemma_next_field_is_token(s, p, quantity);
        let mean = next_field(s, p, quantity).unwrap();
        lemma_next_field_moved(w, s, mean.1, quantity);
        if next_field(s, mean.1, quantity) is Some {
            lemma_next_field_is_token(s, mean.1, quantity);
            let std_dev = next_field(s, mean.1, quantity).unwrap();
            lemma_next_field_moved(w, s, std_dev.1, quantity);
        }
    }
}

/// A word stands at a position with text before it where it stood without.
proof fn lemma_has_at_moved(w: Seq<char>, s: Seq<char>, i: int, word: Seq<char>)
    requires
        0 <= i,
    ensures
        has_at(w + s, w.len() + i, word) == has_at(s, i, word),
{
    if i + word.len() <= s.len() {
        assert((w + s).subrange(w.len() + i, w.len() + i + word.len()) =~= s.subrange(
            i,
            i + word.len(),
        ));
    }
}

/// From a position of the line on, the fields after a label are found where
/// they were, moved by the length of the text before the line.
proof fn lemma_find_fields_moved(
    w: Seq<char>,
    s: Seq<char>,
    label: Seq<char>,
    quantity: Quantity,
    from: int,
)
    requires
        0 <= from,
    ensures
        find_fields(w + s, label, quantity, w.len() + from) == match find_fields(
            s,
            label,
            quantity,
            from,
        ) {
            Some(f) => Some(moved_fields(f, w.len() as int)),
            None => None,
        },
    decreases s.len() - from,
{
    if from < s.len() {
        lemma_has_at_moved(w, s, from, label);
        if has_at(s, from, label) {
            lemma_fields_moved(w, s, from + label.len(), quantity);
        }
        lemma_find_fields_moved(w, s, label, quantity, from + 1);
    }
}

/// No label starts in whitespace.
proof fn lemma_find_fields_passes_space(
    t: Seq<char>,
    label: Seq<char>,
    quantity: Quantity,
    from: int,
    upto: int,
)
    requires
        is_label(label),
        0 <= from <= upto <= t.len(),
        forall|k: int| from <= k < upto ==> is_space(#[trigger] t[k]),
    ensures
        find_fields(t, label, quantity, from) == find_fields(t, label, quantity, upto),
    decreases upto - from,
{
    if from < upto {
        if has_at(t, from, label) {
            assert(t.subrange(from, from + label.len())[0] == label[0]);
            assert(is_space(t[from]));
        }
        lemma_find_fields_passes_space(t, label, quantity, from + 1, upto);
    }
}

/// With whitespace before a line, the fields after a label are found where
/// they were, moved by the length of the whitespace.
proof fn lemma_fields_after_leading_space(
    w: Seq<char>,
    s: Seq<char>,
    label: Seq<char>,
    quantity: Quantity,
)
    requires
        all_space(w),
        is_label(label),
    ensures
        find_fields(w + s, label, quantity, 0) == match find_fields(s, label, quantity, 0) {
            Some(f) => Some(moved_fields(f, w.len() as int)),
            None => None,
        },
{
    let t = w + s;
    assert forall|k: int| 0 <= k < w.len() implies is_space(#[trigger] t[k]) by {
        assert(t[k] == w[k]);
    }
    lemma_find_fields_passes_space(t, label, quantity, 0, w.len() as int);
    lemma_find_fields_moved(w, s, label, quantity, 0);
}

/// With whitespace before a line, a label stands in it where it stood, moved
/// by the length of the whitespace, and nowhere else.
proof fn lemma_words_after_leading_space(w: Seq<char>, s: Seq<char>, label: Seq<char>)
    requires
        all_space(w),
        is_label(label),
    ensures
        contains_word(w + s, label) == contains_word(s, label),
        contains_word_then_space(w + s, label) == contains_word_then_space(s, label),
{
    let t = w + s;
    let by = w.len() as int;
    assert forall|j: int| has_at(t, j, label) implies j >= by && has_at(s, j - by, label) by {
        if j < by {
            assert(t.subrange(j, j + label.len())[0] == label[0]);
            assert(t[j] == w[j]);
        }
        lemma_has_at_moved(w, s, j - by, label);
    }
    assert forall|i: int| has_at(s, i, label) implies has_at(t, by + i, label) by {
        lemma_has_at_moved(w, s, i, label);
    }
    if contains_word(s, label) {
        let i = choose|i: int| has_at(s, i, label);
        assert(has_at(t, by + i, label));
    }
    if contains_word(t, label) {
        let j = choose|j: int| has_at(t, j, label);
        assert(has_at(s, j - by, label));
    }
    if contains_word_then_space(s, label) {
        let i = choose|i: int| word_then_space_at(s, i, label);
        assert(t[by + i + label.len()] == s[i + label.len()]);
        assert(word_then_space_at(t, by + i, label));
    }
    if contains_word_then_space(t, label) {
        let j = choose|j: int| word_then_space_at(t, j, label);
        assert(has_at(s, j - by, label));
        assert(t[j + label.len()] == s[j - by + label.len()]);
        assert(word_then_space_at(s, j - by, label));
    }
}

/// Whitespace before a line changes neither its kind nor what it gives.
pub proof fn lemma_leading_whitespace(s: Seq<char>, before: Seq<char>)
    requires
        all_space(before),
    ensures
        line_kind(before + s) == line_kind(s),
        metric_of_line(before + s) == metric_of_line(s),
{
    reveal_strlit("Latency");
    reveal_strlit("Req/Sec");
    let t = before + s;
    let by = before.len() as int;
    lemma_words_after_leading_space(before, s, "Latency"@);
    lemma_words_after_leading_space(before, s, "Req/Sec"@);
    lemma_fields_after_leading_space(before, s, "Latency"@, Quantity::Time);
    lemma_fields_after_leading_space(before, s, "Req/Sec"@, Quantity::Count);
    if find_fields(s, "Latency"@, Quantity::Time, 0) is Some {
        lemma_found_fields_are_tokens(s, "Latency"@, Quantity::Time, 0);
        let f = find_fields(s, "Latency"@, Quantity::Time, 0).unwrap();
        lemma_found_fields_are_tokens(t, "Latency"@, Quantity::Time, 0);
        lemma_time_moved(before, s, f.mean);
        lemma_time_moved(before, s, f.std_dev);
        lemma_time_moved(before, s, f.max);
    }
    if find_fields(s, "Req/Sec"@, Quantity::Count, 0) is Some {
        lemma_found_fields_are_tokens(s, "Req/Sec"@, Quantity::Count, 0);
        let f = find_fields(s, "Req/Sec"@, Quantity::Count, 0).unwrap();
        lemma_found_fields_are_tokens(t, "Req/Sec"@, Quantity::Count, 0);
        lemma_count_moved(before, s, f.mean);
        lemma_count_moved(before, s, f.std_dev);
        lemma_count_moved(before, s, f.max);
    }
    assert(latency_of_line(t) == latency_of_line(s));
    assert(throughput_of_line(t) == throughput_of_line(s));
}

/// A time gives the same with text before it.
proof fn lemma_time_moved(w: Seq<char>, s: Seq<char>, span: (int, int))
    requires
        is_token_span(s, span, Quantity::Time),
        is_token_span(w + s, moved(span, w.len() as int), Quantity::Time),
    ensures
        time_at(w + s, span.0 + w.len()) == time_at(s, span.0),
{
    assert(span_text(w + s, moved(span, w.len() as int)) =~= span_text(s, span));
    lemma_time_field_value(s, span);
    lemma_time_field_value(w + s, moved(span, w.len() as int));
}

/// A count gives the same with text before it.
proof fn lemma_count_moved(w: Seq<char>, s: Seq<char>, span: (int, int))
    requires
        is_token_span(s, span, Quantity::Count),
        is_token_span(w + s, moved(span, w.len() as int), Quantity::Count),
    ensures
        count_at(w + s, span.0 + w.len()) == count_at(s, span.0),
{
    assert(span_text(w + s, moved(span, w.len() as int)) =~= span_text(s, span));
    lemma_count_field_value(s, span);
    lemma_count_field_value(w + s, moved(span, w.len() as int));
}

// ---------------------------------------------------------------------------
// Whitespace after a line
// ---------------------------------------------------------------------------
/// A run of digits is as long with whitespace after the text.
proof fn lemma_digit_run_extended(s: Seq<char>, after: Seq<char>, i: int)
    requires
        all_space(after),
        0 <= i <= s.len(),
    ensures
        digit_run(s + after, i) == digit_run(s, i),
    decreases s.len() - i,
{
    let t = s + after;
    if i < s.len() {
        assert(t[i] == s[i]);
        if is_digit(s[i]) {
            lemma_digit_run_extended(s, after, i + 1);
        }
    } else if after.len() > 0 {
        assert(t[i] == after[0]);
        assert(is_space(after[0]));
    }
}

/// The whitespace after a line is whitespace to the end of the text.
proof fn lemma_space_run_in_tail(s: Seq<char>, after: Seq<char>, k: int)
    requires
        all_space(after),
        0 <= k <= after.len(),
    ensures
        s.len() + k + space_run(s + after, s.len() + k) == s.len() + after.len(),
    decreases after.len() - k,
{
    let t = s + after;
    if k < after.len() {
        assert(t[s.len() + k] == after[k]);
        assert(is_space(after[k]));
        lemma_space_run_in_tail(s, after, k + 1);
    }
}

/// A run of whitespace that ends inside the text is as long with whitespace
/// after the text; one that reaches the end of the text goes on to the end.
proof fn lemma_space_run_extended(s: Seq<char>, after: Seq<char>, i: int)
    requires
        all_space(after),
        0 <= i <= s.len(),
    ensures
        i + space_run(s, i) < s.len() ==> space_run(s + after, i) == space_run(s, i),
        i + space_run(s, i) == s.len() ==> i + space_run(s + after, i) == s.len() + after.len(),
    decreases s.len() - i,
{
    let t = s + after;
    lemma_space_run_bound(s, i);
    if i < s.len() {
        assert(t[i] == s[i]);
        if is_space(s[i]) {
            lemma_space_run_extended(s, after, i + 1);
        }
    } else {
        lemma_space_run_in_tail(s, after, 0);
    }
}

/// A numeral and a value are as long with whitespace after the text.
proof fn lemma_token_extended(s: Seq<char>, after: Seq<char>, p: int, quantity: Quantity)
    requires
        all_space(after),
        0 <= p <= s.len(),
    ensures
        numeral_len(s + after, p) == numeral_len(s, p),
        token_len(s + after, p, quantity) == token_len(s, p, quantity),
{
    let t = s + after;
    lemma_digit_run_extended(s, after, p);
    lemma_digit_run_bound(s, p);
    let dot = p + digit_run(s, p);
    if dot < s.len() {
        assert(t[dot] == s[dot]);
        lemma_digit_run_extended(s, after, dot + 1);
        lemma_digit_run_bound(s, dot + 1);
    } else if dot < t.len() {
        assert(t[dot] == after[dot - s.len()]);
        assert(is_space(after[dot - s.len()]));
    }
    assert(fraction_len(t, p) == fraction_len(s, p));
    let e = p + numeral_len(s, p);
    if e < s.len() {
        assert(t[e] == s[e]);
    } else if e < t.len() {
        assert(t[e] == after[e - s.len()]);
        assert(is_space(after[e - s.len()]));
    }
    if e + 1 < s.len() {
        assert(t[e + 1] == s[e + 1]);
    } else if e + 1 < t.len() {
        assert(t[e + 1] == after[e + 1 - s.len()]);
        assert(is_space(after[e + 1 - s.len()]));
    }
}

/// The field that follows a position is the same with whitespace after
/// the text.
proof fn lemma_next_field_extended(s: Seq<char>, after: Seq<char>, p: int, quantity: Quantity)
    requires
        all_space(after),
        0 <= p <= s.len(),
    ensures
        next_field(s + after, p, quantity) == next_field(s, p, quantity),
{
    reveal(next_field);
    let t = s + after;
    lemma_space_run_extended(s, after, p);
    lemma_space_run_bound(s, p);
    if p + space_run(s, p) < s.len() {
        lemma_token_extended(s, after, p + space_run(s, p), quantity);
    } else {
        // The whitespace runs to the end of either text, where no value starts.
        assert(digit_run(s, s.len() as int) == 0);
        assert(digit_run(t, t.len() as int) == 0);
    }
}

/// The three fields that follow a position are the same with whitespace
/// after the text.
proof fn lemma_fields_extended(s: Seq<char>, after: Seq<char>, p: int, quantity: Quantity)
    requires
        all_space(after),
        0 <= p <= s.len(),
    ensures
        fields_after(s + after, p, quantity) == fields_after(s, p, quantity),
{
    lemma_next_field_extended(s, after, p, quantity);
    if next_field(s, p, quantity) is Some {
        lemma_next_field_is_token(s, p, quantity);
        let mean = next_field(s, p, quantity).unwrap();
        lemma_next_field_extended(s, after, mean.1, quantity);
        if next_field(s, mean.1, quantity) is Some {
            lemma_next_field_is_token(s, mean.1, quantity);
            let std_dev = next_field(s, mean.1, quantity).unwrap();
            lemma_next_field_extended(s, after, std_dev.1, quantity);
        }
    }
}

/// With whitespace after a line, a label stands where it stood and nowhere
/// else.
proof fn lemma_has_at_extended(s: Seq<char>, after: Seq<char>, i: int, label: Seq<char>)
    requires
        all_space(after),
        is_label(label),
    ensures
        has_at(s + after, i, label) == has_at(s, i, label),
{
    let t = s + after;
    if 0 <= i && i + label.len() <= t.len() {
        if i + label.len() <= s.len() {
            assert(t.subrange(i, i + label.len()) =~= s.subrange(i, i + label.len()));
        } else if has_at(t, i, label) {
            let last = label.len() - 1;
            assert(t.subrange(i, i + label.len())[last] == label[last]);
            assert(t[i + last] == after[i + last - s.len()]);
            assert(is_space(after[i + last - s.len()]));
        }
    }
}

/// The fields after a label are found where they were with whitespace
/// after the text.
proof fn lemma_find_fields_extended(
    s: Seq<char>,
    after: Seq<char>,
    label: Seq<char>,
    quantity: Quantity,
    from: int,
)
    requires
        all_space(after),
        is_label(label),
        0 <= from,
    ensures
        find_fields(s + after, label, quantity, from) == find_fields(s, label, quantity, from),
    decreases s.len() + after.len() - from,
{
    let t = s + after;
    if from < t.len() {
        lemma_has_at_extended(s, after, from, label);
        if has_at(s, from, label) {
            lemma_fields_extended(s, after, from + label.len(), quantity);
        }
        lemma_find_fields_extended(s, after, label, quantity, from + 1);
    }
}

/// A time gives the same with text after it.
proof fn lemma_time_extended(s: Seq<char>, after: Seq<char>, span: (int, int))
    requires
        is_token_span(s, span, Quantity::Time),
        is_token_span(s + after, span, Quantity::Time),
    ensures
        time_at(s + after, span.0) == time_at(s, span.0),
{
    assert(span_text(s + after, span) =~= span_text(s, span));
    lemma_time_field_value(s, span);
    lemma_time_field_value(s + after, span);
}

/// A count gives the same with text after it.
proof fn lemma_count_extended(s: Seq<char>, after: Seq<char>, span: (int, int))
    requires
        is_token_span(s, span, Quantity::Count),
        is_token_span(s + after, span, Quantity::Count),
    ensures
        count_at(s + after, span.0) == count_at(s, span.0),
{
    assert(span_text(s + after, span) =~= span_text(s, span));
    lemma_count_field_value(s, span);
    lemma_count_field_value(s + after, span);
}

/// The line ends with the label `Latency` and is no latency line: it lacks
/// only whitespace after it to be one.
pub open spec fn ends_with_bare_label(s: Seq<char>) -> bool {
    &&& has_at(s, s.len() - "Latency"@.len(), "Latency"@)
    &&& !contains_word_then_space(s, "Latency"@)
}

/// Whitespace after a line changes neither its kind nor what it gives,
/// unless the line ends with the label `Latency` and is no latency line:
/// such a line becomes a latency line by the whitespace after it.
pub proof fn lemma_trailing_whitespace(s: Seq<char>, after: Seq<char>)
    requires
        all_space(after),
        after.len() > 0 ==> !ends_with_bare_label(s),
    ensures
        line_kind(s + after) == line_kind(s),
        metric_of_line(s + after) == metric_of_line(s),
{
    reveal_strlit("Latency");
    reveal_strlit("Req/Sec");
    let t = s + after;
    let latency = "Latency"@;
    let qps = "Req/Sec"@;
    assert forall|i: int| has_at(t, i, latency) == has_at(s, i, latency) by {
        lemma_has_at_extended(s, after, i, latency);
    }
    assert forall|i: int| has_at(t, i, qps) == has_at(s, i, qps) by {
        lemma_has_at_extended(s, after, i, qps);
    }
    if contains_word(s, qps) {
        let i = choose|i: int| has_at(s, i, qps);
        assert(has_at(t, i, qps));
    }
    if contains_word(t, qps) {
        let i = choose|i: int| has_at(t, i, qps);
        assert(has_at(s, i, qps));
    }
    if contains_word_then_space(s, latency) {
        let i = choose|i: int| word_then_space_at(s, i, latency);
        assert(t[i + latency.len()] == s[i + latency.len()]);
        assert(word_then_space_at(t, i, latency));
    }
    if contains_word_then_space(t, latency) {
        let i = choose|i: int| word_then_space_at(t, i, latency);
        assert(has_at(s, i, latency));
        if i + latency.len() == s.len() {
            assert(after.len() > 0);
            assert(contains_word_then_space(s, latency));
        } else {
            assert(t[i + latency.len()] == s[i + latency.len()]);
            assert(word_then_space_at(s, i, latency));
        }
    }
    lemma_find_fields_extended(s, after, latency, Quantity::Time, 0);
    lemma_find_fields_extended(s, after, qps, Quantity::Count, 0);
    if find_fields(s, latency, Quantity::Time, 0) is Some {
        lemma_found_fields_are_tokens(s, latency, Quantity::Time, 0);
        let f = find_fields(s, latency, Quantity::Time, 0).unwrap();
        lemma_found_fields_are_tokens(t, latency, Quantity::Time, 0);
        lemma_time_extended(s, after, f.mean);
        lemma_time_extended(s, after, f.std_dev);
        lemma_time_extended(s, after, f.max);
    }
    if find_fields(s, qps, Quantity::Count, 0) is Some {
        lemma_found_fields_are_tokens(s, qps, Quantity::Count, 0);
        let f = find_fields(s, qps, Quantity::Count, 0).unwrap();
        lemma_found_fields_are_tokens(t, qps, Quantity::Count, 0);
        lemma_count_extended(s, after, f.mean);
        lemma_count_extended(s, after, f.std_dev);
        lemma_count_extended(s, after, f.max);
    }
    assert(latency_of_line(t) == latency_of_line(s));
    assert(throughput_of_line(t) == throughput_of_line(s));
}

/// Whitespace around a line changes neither its kind nor what it gives,
/// unless the line ends with the label `Latency`, is no latency line, and
/// whitespace comes after it.
pub proof fn lemma_surrounding_whitespace(s: Seq<char>, before: Seq<char>, after: Seq<char>)
    requires
        all_space(before),
        all_space(after),
        after.len() > 0 ==> !ends_with_bare_label(s),
    ensures
        line_kind(before + s + after) == line_kind(s),
        metric_of_line(before + s + after) == metric_of_line(s),
{
    lemma_trailing_whitespace(s, after);
    lemma_leading_whitespace(s + after, before);
    assert(before + s + after =~= before + (s + after));
}

/// The fields found after a label stand after a place where the label
/// stands with whitespace after it.
proof fn lemma_found_fields_follow_label(
    s: Seq<char>,
    label: Seq<char>,
    quantity: Quantity,
    from: int,
)
    requires
        find_fields(s, label, quantity, from) is Some,
    ensures
        contains_word_then_space(s, label),
    decreases s.len() - from,
{
    if 0 <= from < s.len() {
        if has_at(s, from, label) && fields_after(s, from + label.len(), quantity) is Some {
            let p = from + label.len();
            reveal(next_field);
            lemma_space_run_bound(s, p);
            lemma_token_bound(s, p + space_run(s, p), quantity);
            assert(word_then_space_at(s, from, label));
        } else {
            lemma_found_fields_follow_label(s, label, quantity, from + 1);
        }
    }
}

/// A line that gives a metric gives the same metric without the whitespace
/// at its end.
pub proof fn lemma_metric_without_trailing_whitespace(s: Seq<char>, after: Seq<char>)
    requires
        all_space(after),
        metric_of_line(s + after) is Some,
    ensures
        metric_of_line(s) == metric_of_line(s + after),
{
    reveal_strlit("Latency");
    reveal_strlit("Req/Sec");
    let t = s + after;
    let latency = "Latency"@;
    if after.len() > 0 && ends_with_bare_label(s) {
        // With the whitespace the line is a latency line, and it gives its
        // latencies; so their label stands in it with whitespace after it,
        // and not at the end of the line, where no field follows.
        assert(word_then_space_at(t, s.len() - latency.len(), latency)) by {
            lemma_has_at_extended(s, after, s.len() - latency.len(), latency);
            assert(t[s.len() as int] == after[0]);
        }
        assert(line_kind(t) == LineKind::Latency);
        lemma_find_fields_extended(s, after, latency, Quantity::Time, 0);
        lemma_found_fields_follow_label(s, latency, Quantity::Time, 0);
        assert(false);
    }
    lemma_trailing_whitespace(s, after);
}

} // verus!
