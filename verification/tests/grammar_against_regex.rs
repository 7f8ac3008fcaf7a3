//! Holds the grammar of the summary lines against regular expressions that
//! say the same: on hand-picked texts and on many generated ones.

use http_load_tester::decimal::Decimal;
use http_load_tester::metrics::{str_into_count, time_str_into_duration, MetricData};
use regex::Regex;

const NUMERAL: &str = r"([[:digit:]]+(?:\.[[:digit:]]+)?)";

/// The regular expressions of the grammar, each compiled once.
struct Rules {
    time: Vec<(Regex, i32)>,
    count: Vec<(Regex, i32)>,
    all_times: Regex,
    all_counts: Regex,
}

fn unit_rules(units: &[(&str, i32)]) -> Vec<(Regex, i32)> {
    units
        .iter()
        .map(|(suffix, unit)| (Regex::new(&format!("{}{}", NUMERAL, suffix)).unwrap(), *unit))
        .collect()
}

fn rules() -> Rules {
    let time = r"([[:digit:]]+(?:\.[[:digit:]]+)?[mun]?s)";
    let count = r"([[:digit:]]+(?:\.[[:digit:]]+)?[mkMG]?)";
    Rules {
        time: unit_rules(&[("ns", 0), ("us", 3), ("ms", 6), ("s", 9)]),
        count: unit_rules(&[("m", -3), ("$", 0), ("k", 3), ("M", 6), ("G", 9)]),
        all_times: Regex::new(&format!(
            r"[[:space:]]*Latency[[:space:]]+{}[[:space:]]+{}[[:space:]]+{}",
            time, time, time
        ))
        .unwrap(),
        all_counts: Regex::new(&format!(
            r"[[:space:]]*Req/Sec[[:space:]]+{}[[:space:]]+{}[[:space:]]+{}",
            count, count, count
        ))
        .unwrap(),
    }
}

/// The numeral and the power of ten that the first rule that matches gives.
fn by_rules(rules: &[(Regex, i32)], s: &str) -> Option<(String, i32)> {
    for (rule, unit) in rules {
        if let Some(c) = rule.captures(s) {
            return Some((c.get(1).unwrap().as_str().to_string(), *unit));
        }
    }
    None
}

/// The digits of a numeral and the number of those after the point.
fn digits_of(numeral: &str) -> (Vec<u8>, i128) {
    let digits: Vec<u8> = numeral.bytes().filter(|b| *b != b'.').map(|b| b - b'0').collect();
    let after_point = match numeral.find('.') {
        Some(at) => (numeral.len() - at - 1) as i128,
        None => 0,
    };
    (digits, after_point)
}

fn decimal_by_regex(found: Option<(String, i32)>) -> Option<(Vec<u8>, i128)> {
    found.map(|(numeral, unit)| {
        let (digits, after_point) = digits_of(&numeral);
        (digits, unit as i128 - after_point)
    })
}

fn nanos_by_regex(rules: &Rules, s: &str) -> Option<u64> {
    decimal_by_regex(by_rules(&rules.time, s)).map(|(digits, exponent)| {
        let d = Decimal { digits, exponent };
        assert!(d.is_valid());
        d.round_saturating()
    })
}

fn check_time(rules: &Rules, s: &str) {
    assert_eq!(time_str_into_duration(s).ok(), nanos_by_regex(rules, s), "time of {:?}", s);
}

fn check_count(rules: &Rules, s: &str) {
    let got = str_into_count(s).ok().map(|d| (d.digits, d.exponent));
    assert_eq!(got, decimal_by_regex(by_rules(&rules.count, s)), "count of {:?}", s);
}

const HAND_PICKED: [&str; 40] = [
    "",
    "1",
    "1s",
    "1ms",
    "1us",
    "1ns",
    "1.5s",
    "1.s",
    ".5s",
    "1..5s",
    "1.2.3s",
    "12.34.56ms",
    "1 s",
    "s1",
    "1ss",
    "1sms",
    "1msns",
    "1m",
    "1k",
    "1M",
    "1G",
    "1K",
    "1mk",
    "1km",
    "1.5",
    "1.5 ",
    " 1.5",
    "1.",
    ".1",
    "1.5.",
    "1.5.2",
    "1m2",
    "2 1m",
    "1G2M3k4m5",
    "0",
    "00.00",
    "007ns",
    "9999999999999999999999999999ns",
    "0.000000000000000000000000001s",
    "١٢٣ms",
];

/// A small generator of numbers that gives the same numbers every time.
struct Lcg(u64);

impl Lcg {
    fn next(&mut self, below: usize) -> usize {
        self.0 = self.0.wrapping_mul(6364136223846793005).wrapping_add(1442695040888963407);
        ((self.0 >> 33) as usize) % below
    }
}

fn generated(alphabet: &[&str], count: usize, max_parts: usize, seed: u64) -> Vec<String> {
    let mut lcg = Lcg(seed);
    let mut texts = Vec::new();
    for _ in 0..count {
        let parts = lcg.next(max_parts + 1);
        let mut text = String::new();
        for _ in 0..parts {
            text.push_str(alphabet[lcg.next(alphabet.len())]);
        }
        texts.push(text);
    }
    texts
}

#[test]
fn times_agree_with_the_regular_expressions() {
    let rules = rules();
    for s in HAND_PICKED {
        check_time(&rules, s);
    }
    let alphabet = ["0", "1", "5", "9", ".", "s", "m", "u", "n", " ", "x"];
    for s in generated(&alphabet, 20000, 9, 1) {
        check_time(&rules, &s);
    }
}

#[test]
fn counts_agree_with_the_regular_expressions() {
    let rules = rules();
    for s in HAND_PICKED {
        check_count(&rules, s);
    }
    let alphabet = ["0", "1", "5", "9", ".", "m", "k", "M", "G", " ", "x"];
    for s in generated(&alphabet, 20000, 9, 2) {
        check_count(&rules, &s);
    }
}

fn latency_by_regex(rules: &Rules, line: &str) -> Option<(u64, u64, u64)> {
    rules.all_times.captures(line).map(|c| {
        let field = |i: usize| nanos_by_regex(rules, c.get(i).unwrap().as_str()).unwrap();
        (field(1), field(2), field(3))
    })
}

type Exact = (Vec<u8>, i128);

fn throughput_by_regex(rules: &Rules, line: &str) -> Option<(Exact, Exact, Exact)> {
    rules.all_counts.captures(line).map(|c| {
        let field = |i: usize| {
            decimal_by_regex(by_rules(&rules.count, c.get(i).unwrap().as_str())).unwrap()
        };
        (field(1), field(2), field(3))
    })
}

fn check_line(rules: &Rules, line: &str) {
    let latency = MetricData::<u64>::try_from_wrk_latency(line).map(|d| (d.mean, d.std_dev, d.max));
    assert_eq!(latency, latency_by_regex(rules, line), "latencies of {:?}", line);
    let throughput = MetricData::<Decimal>::try_from_wrk_qps(line).map(|d| {
        (
            (d.mean.digits, d.mean.exponent),
            (d.std_dev.digits, d.std_dev.exponent),
            (d.max.digits, d.max.exponent),
        )
    });
    assert_eq!(throughput, throughput_by_regex(rules, line), "request rates of {:?}", line);
}

#[test]
fn lines_agree_with_the_regular_expressions() {
    let rules = rules();
    for line in [
        "    Latency   441.23ms   58.18us   2.63s   91.22%",
        "    Req/Sec   441.23m   58.18   2.63k   91.22%",
        "  Latency   635.91us    0.89ms  12.92ms   93.69%",
        "  Req/Sec     57.2k       4k      100k    93.69%",
        "Latency 1s 2s 3s",
        "Latency 1s 2s 3",
        "Latency 1s 2s 3.s",
        "Latency 1s 2s 3.5",
        "Latency1s 2s 3s",
        "Latency 1s2s 3s",
        "Latency 1s 2s  Latency 1s 2s 3s",
        "LatencyLatency 1s 2s 3s",
        "Req/Sec 1 2 3",
        "Req/Sec 1 2 3.",
        "Req/Sec 1 2 .3",
        "Req/Sec 1m 2k 3Mx",
        "Req/Sec 1mk 2 3",
        "Req/Sec 1 2",
        "Req/Sec 1 2 ",
        "Req/Sec\n1\r2\t3",
        "",
    ] {
        check_line(&rules, line);
    }
    let alphabet = [
        "Latency", "Req/Sec", " ", "  ", "\t", "1", "2.5", "30", ".", "s", "ms", "us", "ns", "m",
        "k", "M", "G", "x", "%",
    ];
    for line in generated(&alphabet, 30000, 12, 3) {
        check_line(&rules, &line);
    }
}
