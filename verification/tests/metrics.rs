use std::time::Duration;

use approx::{AbsDiffEq, RelativeEq};
use http_load_tester::decimal::Decimal;
use http_load_tester::metrics::{
    parse_wrk_output, str_into_count, time_str_into_duration, Metric, MetricData, Quantity,
};

/// The value of a decimal as a float: its digits and its exponent, read as
/// one number.
fn to_f64(d: &Decimal) -> f64 {
    assert!(d.is_valid());
    let digits: String = d.digits.iter().map(|x| char::from(b'0' + *x)).collect();
    format!("{}e{}", digits, d.exponent).parse().unwrap()
}

fn relative_eq(a: f64, b: f64) -> bool {
    f64::relative_eq(&a, &b, f64::default_epsilon(), f64::default_max_relative())
}

fn duration(s: &str) -> Duration {
    Duration::from_nanos(time_str_into_duration(s).unwrap())
}

fn count(s: &str) -> f64 {
    to_f64(&str_into_count(s).unwrap())
}

#[test]
fn test_time_str_into_duration() {
    for (time_str, expected) in [
        ("123.01ms", Duration::from_micros(123_010)),
        ("123ms", Duration::from_millis(123)),
        ("123.4ns", Duration::from_nanos(123)),
        ("123.4us", Duration::from_nanos(123_400)),
        ("123.4s", Duration::from_millis(123_400)),
    ] {
        assert_eq!(duration(time_str), expected);
    }
}

#[test]
fn test_str_into_count() {
    for (count_str, expected) in [
        ("123.01m", 0.12301),
        ("123m", 0.123),
        ("123.4", 123.4),
        ("123.4k", 123_400.0),
        ("123.4M", 123_400_000.0),
        ("123.4G", 123_400_000_000.0),
    ] {
        assert!(relative_eq(count(count_str), expected), "{}", count_str);
    }
}

#[test]
fn test_try_from_wrk_latency() {
    let m = MetricData::<u64>::try_from_wrk_latency(
        "    Latency   441.23ms   58.18us   2.63s   91.22%",
    );
    assert_eq!(m.is_some(), true);
    let m = m.unwrap();
    assert_eq!(
        Duration::from_nanos(m.mean),
        Duration::from_nanos((441.23f64 * 1_000_000.0).round() as u64)
    );
    assert_eq!(
        Duration::from_nanos(m.std_dev),
        Duration::from_nanos((58.18f64 * 1_000.0).round() as u64)
    );
    assert_eq!(
        Duration::from_nanos(m.max),
        Duration::from_nanos((2.63f64 * 1_000_000_000.0).round() as u64)
    );
}

#[test]
fn test_try_from_wrk_qps() {
    let m = MetricData::<Decimal>::try_from_wrk_qps(
        "    Req/Sec   441.23m   58.18   2.63k   91.22%",
    );
    assert_eq!(m.is_some(), true);
    let m = m.unwrap();
    assert!(relative_eq(to_f64(&m.mean), 441.23f64 * 0.001));
    assert!(relative_eq(to_f64(&m.std_dev), 58.18f64));
    assert!(relative_eq(to_f64(&m.max), 2.63f64 * 1000.0));
}

#[test]
fn duration_examples_are_exact() {
    assert_eq!(time_str_into_duration("123ms").unwrap(), 123_000_000);
    assert_eq!(time_str_into_duration("123.4us").unwrap(), 123_400);
    assert_eq!(time_str_into_duration("2.63s").unwrap(), 2_630_000_000);
    assert_eq!(time_str_into_duration("7ns").unwrap(), 7);
}

#[test]
fn count_examples_are_exact() {
    let milli = str_into_count("123m").unwrap();
    assert_eq!((milli.digits.clone(), milli.exponent), (vec![1, 2, 3], -3));
    assert_eq!(to_f64(&milli), 0.123);
    let kilo = str_into_count("2.63k").unwrap();
    assert_eq!((kilo.digits.clone(), kilo.exponent), (vec![2, 6, 3], 1));
    assert_eq!(to_f64(&kilo), 2630.0);
    let mega = str_into_count("123.4M").unwrap();
    assert_eq!((mega.digits.clone(), mega.exponent), (vec![1, 2, 3, 4], 5));
    assert_eq!(to_f64(&mega), 123_400_000.0);
    let giga = str_into_count("5G").unwrap();
    assert_eq!((giga.digits.clone(), giga.exponent), (vec![5], 9));
    let plain = str_into_count("58.18").unwrap();
    assert_eq!((plain.digits.clone(), plain.exponent), (vec![5, 8, 1, 8], -2));
}

#[test]
fn durations_round_to_the_nearest_nanosecond() {
    assert_eq!(time_str_into_duration("0.4ns").unwrap(), 0);
    assert_eq!(time_str_into_duration("0.5ns").unwrap(), 1);
    assert_eq!(time_str_into_duration("1.49ns").unwrap(), 1);
    assert_eq!(time_str_into_duration("1.5ns").unwrap(), 2);
    assert_eq!(time_str_into_duration("0.0004us").unwrap(), 0);
    assert_eq!(time_str_into_duration("0.0005us").unwrap(), 1);
    assert_eq!(time_str_into_duration("1.2345678s").unwrap(), 1_234_567_800);
    assert_eq!(time_str_into_duration("0.0000000014s").unwrap(), 1);
    assert_eq!(time_str_into_duration("0.00000000149999s").unwrap(), 1);
    assert_eq!(time_str_into_duration("0.0000000015s").unwrap(), 2);
    assert_eq!(time_str_into_duration("0.00000000001s").unwrap(), 0);
}

#[test]
fn durations_are_held_to_64_bits() {
    assert_eq!(time_str_into_duration("18446744073709551615ns").unwrap(), u64::MAX);
    assert_eq!(time_str_into_duration("18446744073709551614.4ns").unwrap(), u64::MAX - 1);
    assert_eq!(time_str_into_duration("18446744073709551614.5ns").unwrap(), u64::MAX);
    assert_eq!(time_str_into_duration("18446744073709551616ns").unwrap(), u64::MAX);
    assert_eq!(time_str_into_duration("99999999999999999999999999999999s").unwrap(), u64::MAX);
    assert_eq!(time_str_into_duration("18446744073.709551615s").unwrap(), u64::MAX);
    assert_eq!(time_str_into_duration("18446744073.709551614s").unwrap(), u64::MAX - 1);
    assert_eq!(time_str_into_duration("0s").unwrap(), 0);
    assert_eq!(time_str_into_duration("000000000000000000000000000000001s").unwrap(), 1_000_000_000);
}

#[test]
fn units_are_tried_in_order() {
    // `ns` before `us` before `ms` before `s`, wherever in the text they stand.
    assert_eq!(time_str_into_duration("1s 2ms 3us 4ns").unwrap(), 4);
    assert_eq!(time_str_into_duration("1s 2ms 3us").unwrap(), 3_000);
    assert_eq!(time_str_into_duration("1s 2ms").unwrap(), 2_000_000);
    // Within one unit the first numeral counts.
    assert_eq!(time_str_into_duration("5ms 6ms").unwrap(), 5_000_000);
    // Milli before plain before kilo, mega, giga.
    assert_eq!(count("1G 2M 3k 4m"), 0.004);
    assert_eq!(count("1G 2M 3k 4"), 4.0);
    assert_eq!(count("1G 2M 3k"), 3000.0);
    assert_eq!(count("1G 2M"), 2_000_000.0);
    assert_eq!(count("1G"), 1_000_000_000.0);
}

#[test]
fn suffix_case_matters() {
    assert_eq!(count("2m"), 0.002);
    assert_eq!(count("2M"), 2_000_000.0);
    assert!(str_into_count("2K").is_err());
    assert!(str_into_count("2g").is_err());
    assert!(time_str_into_duration("2MS").is_err());
    assert!(time_str_into_duration("2S").is_err());
}

#[test]
fn numerals_are_found_inside_a_text() {
    assert_eq!(time_str_into_duration("abc12msxyz").unwrap(), 12_000_000);
    assert_eq!(time_str_into_duration("1.2.3ns").unwrap(), 2);
    assert_eq!(time_str_into_duration("x.5ns").unwrap(), 5);
    assert_eq!(time_str_into_duration("12.ms 3ms").unwrap(), 3_000_000);
    assert_eq!(count("a1.5"), 1.5);
    assert_eq!(count("1.2.5"), 2.5);
    // A count without unit has to end the text.
    assert!(str_into_count("1.5 ").is_err());
    assert!(str_into_count("1.5x").is_err());
    assert_eq!(count("7 1.5k"), 1500.0);
}

#[test]
fn unknown_units_are_errors_that_name_the_text() {
    let e = time_str_into_duration("12 parsecs").unwrap_err();
    assert_eq!(e.quantity, Quantity::Time);
    assert_eq!(e.token, "12 parsecs");
    assert_eq!(e.message(), "Could not parse time 12 parsecs");
    let e = str_into_count("many").unwrap_err();
    assert_eq!(e.quantity, Quantity::Count);
    assert_eq!(e.token, "many");
    assert_eq!(e.message(), "Could not parse count many");
    assert!(time_str_into_duration("").is_err());
    assert!(str_into_count("").is_err());
    assert!(time_str_into_duration("ms").is_err());
    assert!(time_str_into_duration(".5ms").is_ok());
    assert!(str_into_count("k").is_err());
}

#[test]
fn latency_line_scenario() {
    let m = MetricData::<u64>::try_from_wrk_latency(
        "    Latency   441.23ms   58.18us   2.63s   91.22%",
    )
    .unwrap();
    assert_eq!(m.mean, 441_230_000);
    assert_eq!(m.std_dev, 58_180);
    assert_eq!(m.max, 2_630_000_000);
}

#[test]
fn throughput_line_scenario() {
    let m = MetricData::<Decimal>::try_from_wrk_qps(
        "    Req/Sec   441.23m   58.18   2.63k   91.22%",
    )
    .unwrap();
    assert_eq!(to_f64(&m.mean), 0.44123);
    assert_eq!(to_f64(&m.std_dev), 58.18);
    assert_eq!(to_f64(&m.max), 2630.0);
    assert_eq!((m.mean.digits, m.mean.exponent), (vec![4, 4, 1, 2, 3], -5));
    assert_eq!((m.std_dev.digits, m.std_dev.exponent), (vec![5, 8, 1, 8], -2));
    assert_eq!((m.max.digits, m.max.exponent), (vec![2, 6, 3], 1));
}

fn latency_of(line: &str) -> Option<(u64, u64, u64)> {
    match Metric::try_from_wrk_output(line) {
        Some(Metric::Latency(d)) => Some((d.mean, d.std_dev, d.max)),
        Some(Metric::Qps(_)) => panic!("a throughput metric from {:?}", line),
        None => None,
    }
}

fn qps_of(line: &str) -> Option<(f64, f64, f64)> {
    match Metric::try_from_wrk_output(line) {
        Some(Metric::Qps(d)) => Some((to_f64(&d.mean), to_f64(&d.std_dev), to_f64(&d.max))),
        Some(Metric::Latency(_)) => panic!("a latency metric from {:?}", line),
        None => None,
    }
}

#[test]
fn lines_are_classified_by_their_label() {
    assert_eq!(latency_of("  Latency 1ms 2ms 3ms"), Some((1_000_000, 2_000_000, 3_000_000)));
    assert_eq!(qps_of("  Req/Sec 1 2k 3M"), Some((1.0, 2000.0, 3_000_000.0)));
    assert!(Metric::try_from_wrk_output("  Thread Stats   Avg      Stdev     Max   +/- Stdev").is_none());
    assert!(Metric::try_from_wrk_output("").is_none());
    // The label need not start the line, nor follow whitespace.
    assert_eq!(latency_of("Latency 1ms 2ms 3ms"), Some((1_000_000, 2_000_000, 3_000_000)));
    assert_eq!(latency_of("xLatency 1ms 2ms 3ms"), Some((1_000_000, 2_000_000, 3_000_000)));
    assert_eq!(qps_of("Req/Sec 1 2 3"), Some((1.0, 2.0, 3.0)));
    // A latency line stays one, whatever else it holds.
    assert!(Metric::try_from_wrk_output("  Latency none  Req/Sec 1 2 3").is_none());
    // The label alone, with nothing after it, makes no latency line.
    assert_eq!(qps_of("  Req/Sec 1 2 3 Latency"), Some((1.0, 2.0, 3.0)));
    // The label is written exactly so.
    assert!(Metric::try_from_wrk_output("  latency 1ms 2ms 3ms").is_none());
    assert!(Metric::try_from_wrk_output("  Req/sec 1 2 3").is_none());
}

#[test]
fn lines_need_three_fields() {
    assert!(latency_of("  Latency 1ms 2ms").is_none());
    assert!(latency_of("  Latency 1ms 2ms 3").is_none());
    assert!(latency_of("  Latency 1ms 2ms 3 ms").is_none());
    assert!(latency_of("  Latency 1ms,2ms,3ms").is_none());
    assert!(latency_of("  Latency1ms 2ms 3ms").is_none());
    assert!(latency_of("  Latency 1ks 2ms 3ms").is_none());
    assert!(qps_of("  Req/Sec 1 2").is_none());
    assert!(qps_of("  Req/Sec 1 2 ").is_none());
    assert!(qps_of("  Req/Sec 1ms 2 3").is_none());
    assert!(qps_of("  Req/Sec 1kk 2 3").is_none());
    // What follows the third field does not count.
    assert_eq!(latency_of("  Latency 1ms 2ms 3msec"), Some((1_000_000, 2_000_000, 3_000_000)));
    assert_eq!(qps_of("  Req/Sec 1 2 3kB"), Some((1.0, 2.0, 3000.0)));
    assert_eq!(qps_of("  Req/Sec 1 2 3.x"), Some((1.0, 2.0, 3.0)));
    // Tabs and other whitespace separate fields as spaces do.
    assert_eq!(latency_of("\tLatency\t1ns\x0B2ns\x0C3ns"), Some((1, 2, 3)));
}

#[test]
fn the_first_label_with_fields_counts() {
    assert_eq!(latency_of(" Latency (ms) Latency 1ms 2ms 3ms"), Some((1_000_000, 2_000_000, 3_000_000)));
    assert_eq!(latency_of(" Latency 1ns 2ns 3ns Latency 4ns 5ns 6ns"), Some((1, 2, 3)));
    assert_eq!(qps_of(" Req/Sec - Req/Sec 4 5 6"), Some((4.0, 5.0, 6.0)));
}

#[test]
fn surrounding_whitespace_does_not_change_a_line() {
    let lines = [
        "Latency 1.5ms 2us 3s",
        "Req/Sec 1 2.5k 3M",
        "Thread Stats   Avg      Stdev     Max   +/- Stdev",
        "Latency 1ms 2ms",
        "Req/Sec 1 2",
        "",
    ];
    for line in lines {
        let alone = Metric::try_from_wrk_output(line);
        for before in ["", " ", "\t \r\n", "    "] {
            for after in ["", " ", "\r", " \t\x0B\x0C "] {
                let padded = format!("{}{}{}", before, line, after);
                let got = Metric::try_from_wrk_output(&padded);
                assert_eq!(format!("{:?}", got), format!("{:?}", alone), "{:?}", padded);
            }
        }
    }
}

#[test]
fn whitespace_after_a_final_latency_label_makes_a_latency_line() {
    assert!(qps_of("  Req/Sec 1 2 3 Latency").is_some());
    assert!(Metric::try_from_wrk_output("  Req/Sec 1 2 3 Latency ").is_none());
}

fn kinds(metrics: &[Metric]) -> Vec<&'static str> {
    metrics
        .iter()
        .map(|m| match m {
            Metric::Latency(_) => "latency",
            Metric::Qps(_) => "qps",
        })
        .collect()
}

#[test]
fn a_block_gives_the_metrics_of_its_lines_in_order() {
    let latency_line = "    Latency   635.91us    0.89ms  12.92ms   93.69%";
    let qps_line = "    Req/Sec     57.2k       4k      100k    93.69%";
    for (first, second, order) in [
        (latency_line, qps_line, ["latency", "qps"]),
        (qps_line, latency_line, ["qps", "latency"]),
    ] {
        for ending in ["\n", "\r\n"] {
            for last in ["", "\n", "\r\n"] {
                let block = format!("{}{}{}{}", first, ending, second, last);
                let metrics = parse_wrk_output(&block);
                assert_eq!(kinds(&metrics), order, "{:?}", block);
                let alone = [
                    Metric::try_from_wrk_output(first).unwrap(),
                    Metric::try_from_wrk_output(second).unwrap(),
                ];
                assert_eq!(format!("{:?}", metrics), format!("{:?}", alone));
            }
        }
    }
    let metrics = parse_wrk_output(&format!("{}\n{}", latency_line, qps_line));
    match &metrics[0] {
        Metric::Latency(d) => assert_eq!((d.mean, d.std_dev, d.max), (635_910, 890_000, 12_920_000)),
        other => panic!("{:?}", other),
    }
    match &metrics[1] {
        Metric::Qps(d) => {
            assert_eq!((to_f64(&d.mean), to_f64(&d.std_dev), to_f64(&d.max)), (57_200.0, 4000.0, 100_000.0))
        }
        other => panic!("{:?}", other),
    }
}

#[test]
fn a_whole_report_gives_two_metrics() {
    let report = "Running 10s test @ http://localhost:8080/strings/hello\n  \
        1 threads and 1 connections\n  \
        Thread Stats   Avg      Stdev     Max   +/- Stdev\n    \
        Latency   635.91us    0.89ms  12.92ms   93.69%\n    \
        Req/Sec     57.2k       4k      100k    93.69%\n  \
        571818 requests in 10.10s, 70.35MB read\n\
        Requests/sec:  56617.25\n\
        Transfer/sec:      6.97MB\n";
    let metrics = parse_wrk_output(report);
    assert_eq!(kinds(&metrics), ["latency", "qps"]);
    assert!(parse_wrk_output("").is_empty());
    assert!(parse_wrk_output("\n\n\n").is_empty());
    assert!(parse_wrk_output("nothing of interest\n").is_empty());
}

#[test]
fn fields_do_not_reach_over_line_ends() {
    // Whitespace separates fields, and a line feed is whitespace; but a block
    // is read line by line.
    assert!(latency_of("  Latency 1ms 2ms\n3ms").is_some());
    assert!(parse_wrk_output("  Latency 1ms 2ms\n3ms").is_empty());
    assert!(parse_wrk_output("  Latency\n 1ms 2ms 3ms").is_empty());
    // A carriage return before the line feed belongs to the line ending.
    assert_eq!(kinds(&parse_wrk_output("  Req/Sec 1 2 3\r\n")), ["qps"]);
}

#[test]
fn carriage_returns_at_line_ends_do_not_change_the_metrics() {
    let plain = parse_wrk_output("  Latency 1ms 2ms 3ms\n  Req/Sec 1 2 3");
    for block in [
        "  Latency 1ms 2ms 3ms\r\n  Req/Sec 1 2 3",
        "  Latency 1ms 2ms 3ms\r\r\n  Req/Sec 1 2 3\r",
        "  Latency 1ms 2ms 3ms\r\r\n  Req/Sec 1 2 3\r\r\n",
        "\r\n  Latency 1ms 2ms 3ms \r\n\r\n  Req/Sec 1 2 3 \n\r",
    ] {
        assert_eq!(format!("{:?}", parse_wrk_output(block)), format!("{:?}", plain), "{:?}", block);
    }
    assert_eq!(kinds(&plain), ["latency", "qps"]);
}
