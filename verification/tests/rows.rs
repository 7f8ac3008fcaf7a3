use http_load_tester::decimal::Decimal;
use http_load_tester::error::BenchError;
use http_load_tester::metrics::{Metric, MetricData};
use http_load_tester::paths::TestPath;
use http_load_tester::perf::{self, PerfResult};
use http_load_tester::single::{self, SingleResult};
use http_load_tester::targets::TestTarget;
use http_load_tester::warm_up::{Attempt, WarmUpResult, WarmUpResults, WarmUpRun};
use http_load_tester::writes::{
    nanos_to_millis, request_rows, start_time_rows, LatencyRow, PerfResultRow,
};
use http_load_tester::wrk::ToolExit;

fn to_f64(d: &Decimal) -> f64 {
    assert!(d.is_valid());
    let digits: String = d.digits.iter().map(|x| char::from(b'0' + *x)).collect();
    format!("{}e{}", digits, d.exponent).parse().unwrap()
}

const TARGET: TestTarget<'static> =
    TestTarget { server_name: "rust/actix", num_cpus: 2, ram_mb: 128, is_compressed: false };

const OK: ToolExit = ToolExit { success: true, code: Some(0) };

const REPORT: &str = "  Thread Stats   Avg      Stdev     Max   +/- Stdev\n    \
    Latency   635.91us    0.89ms  12.92ms   93.69%\n    \
    Req/Sec     57.2k       4k      100k    93.69%\n";

#[test]
fn a_result_collects_the_metrics_of_the_output() {
    let path = TestPath::new("/strings/hello", "hello");
    let mut result = PerfResult::new(TARGET, &path);
    assert!(result.metrics.is_empty());
    result.push_wrk_results(REPORT);
    assert_eq!(result.metrics.len(), 2);
    assert!(matches!(result.metrics[0], Metric::Latency(_)));
    assert!(matches!(result.metrics[1], Metric::Qps(_)));
    result.push_wrk_results("    Latency   1us    2us  3us   93.69%\nnothing\n");
    assert_eq!(result.metrics.len(), 3);
    assert!(matches!(&result.metrics[2], Metric::Latency(d) if d.mean == 1_000));
    assert_eq!(result.target.server_name, "rust/actix");
    assert_eq!(result.path.name, "hello");
}

#[test]
fn a_measured_run_becomes_a_row() {
    let path = TestPath::new("/strings/hello", "hello");
    let result = perf::bench_path(TARGET, &path, &OK, REPORT).unwrap();
    let row = PerfResultRow::from(result).unwrap();
    assert_eq!(row.name, "hello");
    assert_eq!(row.path, "/strings/hello");
    assert_eq!(row.server_name, "rust/actix");
    assert_eq!(row.num_cpus, 2);
    assert_eq!(row.ram_mb, 128);
    assert_eq!(row.target, "rust-actix-uncompressed-cpus-2-ram-128m");
    assert_eq!(to_f64(&row.latency_mean_ms), 0.63591);
    assert_eq!(to_f64(&row.latency_std_dev_ms), 0.89);
    assert_eq!(to_f64(&row.latency_max_ms), 12.92);
    assert_eq!(to_f64(&row.qps_mean), 57_200.0);
    assert_eq!(to_f64(&row.qps_std_dev), 4_000.0);
    assert_eq!(to_f64(&row.qps_max), 100_000.0);
    assert_eq!((row.latency_mean_ms.digits.clone(), row.latency_mean_ms.exponent), (vec![6, 3, 5, 9, 1, 0], -6));
}

#[test]
fn a_row_takes_the_first_metric_of_each_kind() {
    let path = TestPath::new("/p", "p");
    let out = "  Req/Sec 1 2 3\n  Latency 1ms 2ms 3ms\n  Latency 4ms 5ms 6ms\n  Req/Sec 4 5 6\n";
    let row = PerfResultRow::from(perf::bench_path(TARGET, &path, &OK, out).unwrap()).unwrap();
    assert_eq!(to_f64(&row.latency_mean_ms), 1.0);
    assert_eq!(to_f64(&row.latency_max_ms), 3.0);
    assert_eq!(to_f64(&row.qps_mean), 1.0);
    assert_eq!(to_f64(&row.qps_max), 3.0);
}

#[test]
fn a_block_without_throughput_line_gives_no_row() {
    let path = TestPath::new("/strings/hello", "hello");
    let out = "  Thread Stats   Avg      Stdev     Max   +/- Stdev\n    \
        Latency   635.91us    0.89ms  12.92ms   93.69%\n";
    let result = perf::bench_path(TARGET, &path, &OK, out).unwrap();
    assert_eq!(result.metrics.len(), 1);
    let e = PerfResultRow::from(result).unwrap_err();
    assert!(matches!(e, BenchError::MissingThroughput));
}

#[test]
fn a_block_without_latency_line_gives_no_row() {
    let path = TestPath::new("/strings/hello", "hello");
    let out = "    Req/Sec     57.2k       4k      100k    93.69%\n";
    let e = PerfResultRow::from(perf::bench_path(TARGET, &path, &OK, out).unwrap()).unwrap_err();
    assert!(matches!(e, BenchError::MissingLatency));
    let e = PerfResultRow::from(perf::bench_path(TARGET, &path, &OK, "").unwrap()).unwrap_err();
    assert!(matches!(e, BenchError::MissingLatency));
}

#[test]
fn a_failed_run_gives_no_result() {
    let path = TestPath::new("/strings/hello", "hello");
    let failed = ToolExit { success: false, code: Some(3) };
    let e = perf::bench_path(TARGET, &path, &failed, REPORT).unwrap_err();
    assert!(matches!(e, BenchError::ToolFailed { code: Some(3) }));
    let e = single::bench_single(TARGET, &path, &failed, REPORT).unwrap_err();
    assert!(matches!(e, BenchError::ToolFailed { code: Some(3) }));
}

#[test]
fn a_single_result_becomes_a_row_too() {
    let path = TestPath::new("/static/basic.html", "static-text");
    let mut result = SingleResult::new(TARGET, &path);
    result.push_wrk_results(REPORT);
    let row = PerfResultRow::from_single(result).unwrap();
    assert_eq!(row.name, "static-text");
    assert_eq!(to_f64(&row.latency_max_ms), 12.92);
    let result = single::bench_single(TARGET, &path, &OK, "  Latency 1s 2s 3s").unwrap();
    assert!(matches!(PerfResultRow::from_single(result), Err(BenchError::MissingThroughput)));
}

#[test]
fn latencies_stand_in_milliseconds() {
    let row = LatencyRow::from(&MetricData { mean: 441_230_000, std_dev: 58_180, max: 2_630_000_000 });
    assert_eq!(to_f64(&row.mean_ms), 441.23);
    assert_eq!(to_f64(&row.std_dev_ms), 0.05818);
    assert_eq!(to_f64(&row.max_ms), 2630.0);
    assert_eq!(to_f64(&nanos_to_millis(0)), 0.0);
    assert_eq!(to_f64(&nanos_to_millis(1)), 0.000001);
    let most = nanos_to_millis(u128::MAX);
    assert_eq!(most.exponent, -6);
    let digits: String = most.digits.iter().map(|d| d.to_string()).collect();
    assert_eq!(digits, u128::MAX.to_string());
}

#[test]
fn warm_up_results_become_two_tables() {
    let hello = TestPath::new("/strings/hello", "hello");
    let lines = TestPath::new("/strings/lines?n=50000", "lines");
    let mut results = WarmUpResults::new(TARGET);
    assert!(results.per_path.is_empty());
    let mut first = WarmUpResult::new(&hello, 1_500_000_000);
    assert!(first.latencies.is_empty());
    first.latencies.push(2_000_000);
    first.latencies.push(3_000_000);
    results.per_path.push(first);
    let mut second = WarmUpResult::new(&hello, 1_250_000_000);
    second.latencies.push(4_500_000);
    results.per_path.push(second);
    results.per_path.push(WarmUpResult::new(&lines, 7));
    let mut fourth = WarmUpResult::new(&lines, 8);
    fourth.latencies.push(1);
    results.per_path.push(fourth);

    let requests = request_rows(&results);
    let seen: Vec<(&str, usize, f64)> =
        requests.iter().map(|r| (r.name, r.request_number, to_f64(&r.latency_ms))).collect();
    assert_eq!(
        seen,
        [("hello", 1, 2.0), ("hello", 2, 3.0), ("hello", 1, 4.5), ("lines", 1, 0.000001)]
    );
    for row in &requests {
        assert_eq!(row.server_name, "rust/actix");
        assert_eq!((row.num_cpus, row.ram_mb), (2, 128));
        assert_eq!(row.target, "rust-actix-uncompressed-cpus-2-ram-128m");
    }
    assert_eq!(requests[3].path, "/strings/lines?n=50000");

    let starts = start_time_rows(&results);
    let seen: Vec<(&str, f64)> =
        starts.iter().map(|r| (r.name, to_f64(&r.start_up_latency_ms))).collect();
    assert_eq!(
        seen,
        [("hello", 1500.0), ("hello", 1250.0), ("lines", 0.000007), ("lines", 0.000008)]
    );
    assert_eq!(starts[0].path, "/strings/hello");
    assert_eq!(starts[0].target, "rust-actix-uncompressed-cpus-2-ram-128m");

    let empty = WarmUpResults::new(TARGET);
    assert!(request_rows(&empty).is_empty());
    assert!(start_time_rows(&empty).is_empty());
}

fn attempt(answered_well: bool, sent_after: u128, took: u128) -> Attempt {
    Attempt { answered_well, sent_after, took }
}

#[test]
fn the_first_good_answer_starts_a_result() {
    let hello = TestPath::new("/strings/hello", "hello");
    assert!(WarmUpResult::first_response(&hello, attempt(false, 5, 6)).is_none());
    let mut result = WarmUpResult::first_response(&hello, attempt(true, 5, 6)).unwrap();
    // Start-up lasts until the answer has come: sent after 5, answered 6 later.
    assert_eq!(result.startup_time, 11);
    assert_eq!(result.latencies, [6]);
    assert_eq!(result.path.name, "hello");
    let mut sent = 0;
    while result.wants_request() {
        result.record(10 + sent);
        sent += 1;
    }
    assert_eq!(sent, 5);
    assert_eq!(result.latencies, [6, 10, 11, 12, 13, 14]);
    assert_eq!(result.startup_time, 11);
    assert_eq!(result.path.name, "hello");
    let at_once = WarmUpResult::first_response(&hello, attempt(true, 0, 0)).unwrap();
    assert_eq!((at_once.startup_time, at_once.latencies), (0, vec![0]));
}

#[test]
fn a_wait_ends_with_the_first_good_answer() {
    let hello = TestPath::new("/strings/hello", "hello");
    let attempts = vec![
        attempt(false, 100, 10),
        attempt(false, 120, 1_000),
        attempt(true, 1_130, 7),
        attempt(true, 1_140, 3),
        attempt(false, 1_150, 1),
    ];
    let (requests, result) = WarmUpResult::wait_for_first_response(&hello, &attempts).unwrap();
    assert_eq!(requests, 3);
    assert_eq!(result.startup_time, 1_137);
    assert_eq!(result.latencies, [7]);
    assert_eq!(result.path.path, "/strings/hello");
    // The requests that failed leave no trace.
    let (requests, alone) = WarmUpResult::wait_for_first_response(&hello, &attempts[2..].to_vec()).unwrap();
    assert_eq!(requests, 1);
    assert_eq!((alone.startup_time, alone.latencies), (1_137, vec![7]));
    assert!(WarmUpResult::wait_for_first_response(&hello, &attempts[..2].to_vec()).is_none());
    assert!(WarmUpResult::wait_for_first_response(&hello, &Vec::new()).is_none());
}

#[test]
fn attempts_are_valid_where_the_arrival_fits() {
    assert!(attempt(true, 0, u128::MAX).is_valid());
    assert!(attempt(true, u128::MAX, 0).is_valid());
    assert!(!attempt(true, u128::MAX, 1).is_valid());
    assert!(!attempt(false, 1, u128::MAX).is_valid());
    let root = TestPath::new("/", "root");
    let latest = WarmUpResult::first_response(&root, attempt(true, u128::MAX - 2, 2)).unwrap();
    assert_eq!(latest.startup_time, u128::MAX);
}

#[test]
fn results_are_added_in_order() {
    let hello = TestPath::new("/strings/hello", "hello");
    let mut results = WarmUpResults::new(TARGET);
    results.push(WarmUpResult::first_response(&hello, attempt(true, 1, 2)).unwrap());
    results.push(WarmUpResult::first_response(&hello, attempt(true, 3, 4)).unwrap());
    let starts: Vec<u128> = results.per_path.iter().map(|r| r.startup_time).collect();
    assert_eq!(starts, [3, 7]);
    assert_eq!(results.target.server_name, "rust/actix");
    let rows = start_time_rows(&results);
    assert_eq!(to_f64(&rows[0].start_up_latency_ms), 0.000003);
    assert_eq!(to_f64(&rows[1].start_up_latency_ms), 0.000007);
}

#[test]
fn a_running_benchmark_keeps_its_record() {
    let hello = TestPath::new("/strings/hello", "hello");
    let lines = TestPath::new("/strings/lines?n=50000", "lines");
    let mut run = WarmUpRun::new(TARGET);
    assert!(run.open.is_none());
    assert!(run.results.per_path.is_empty());
    // Nothing is timed before the first good answer.
    assert!(!run.timed(1));
    assert!(!run.answered(&hello, attempt(false, 10, 1)));
    assert!(run.open.is_none());
    assert!(!run.timed(1));
    assert!(run.answered(&hello, attempt(true, 20, 4)));
    for k in 0..5 {
        assert!(run.timed(100 + k));
    }
    // No more than the follow-up requests are timed.
    assert!(!run.timed(9));
    {
        let open = run.open.as_ref().unwrap();
        assert_eq!((open.startup_time, open.latencies.clone()), (24, vec![4, 100, 101, 102, 103, 104]));
    }
    assert!(run.results.per_path.is_empty());
    run.stopped();
    assert!(run.open.is_none());
    assert_eq!(run.results.per_path.len(), 1);
    // Stopping with nothing open adds nothing.
    run.stopped();
    assert_eq!(run.results.per_path.len(), 1);
    assert!(run.answered(&lines, attempt(true, 7, 8)));
    run.stopped();
    let seen: Vec<(&str, u128, usize)> = run
        .results
        .per_path
        .iter()
        .map(|r| (r.path.name.as_str(), r.startup_time, r.latencies.len()))
        .collect();
    assert_eq!(seen, [("hello", 24, 6), ("lines", 15, 1)]);
    assert_eq!(run.results.target.server_name, "rust/actix");
    assert_eq!(request_rows(&run.results).len(), 7);
}

#[test]
fn decimals_round_to_the_nearest_integer() {
    let d = |digits: &[u8], exponent: i128| Decimal { digits: digits.to_vec(), exponent };
    assert_eq!(d(&[1, 2, 3], 0).round_saturating(), 123);
    assert_eq!(d(&[1, 2, 3], 2).round_saturating(), 12_300);
    assert_eq!(d(&[1, 2, 3], -1).round_saturating(), 12);
    assert_eq!(d(&[1, 2, 5], -1).round_saturating(), 13);
    assert_eq!(d(&[1, 2, 3], -3).round_saturating(), 0);
    assert_eq!(d(&[5, 0, 0], -3).round_saturating(), 1);
    assert_eq!(d(&[4, 9, 9], -3).round_saturating(), 0);
    assert_eq!(d(&[9, 9, 9], -4).round_saturating(), 0);
    assert_eq!(d(&[9], i128::MIN).round_saturating(), 0);
    assert_eq!(d(&[], 5).round_saturating(), 0);
    assert_eq!(d(&[], -5).round_saturating(), 0);
    assert_eq!(d(&[0, 0, 1], 19).round_saturating(), 10_000_000_000_000_000_000);
    assert_eq!(d(&[0, 0, 2], 19).round_saturating(), u64::MAX);
    assert_eq!(d(&[1], i128::MAX).round_saturating(), u64::MAX);
    assert_eq!(d(&[0], i128::MAX).round_saturating(), 0);
    assert!(d(&[0, 9], 0).is_valid());
    assert!(!d(&[0, 10], 0).is_valid());
    let copy = d(&[4, 2], -1).duplicate();
    assert_eq!(copy, d(&[4, 2], -1));
    assert_eq!(Decimal::from_integer(0, 3), d(&[0], 3));
    assert_eq!(Decimal::from_integer(9070, -2), d(&[9, 0, 7, 0], -2));
}
