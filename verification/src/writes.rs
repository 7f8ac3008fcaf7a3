//! The rows of the result tables: what each mode's results become before
//! they are written.
//!
//! Latencies stand in the rows in milliseconds, request rates in requests per
//! second, both as exact decimals.

use crate::decimal::{Decimal, Number};
use crate::error::BenchError;
use crate::metrics::{metric_values, Metric, MetricData, MetricValue};
use crate::paths::{PathText, TestPath};
use crate::perf::PerfResult;
use crate::single::SingleResult;
use crate::targets::TestTarget;
use crate::text::decimal_digits;
use crate::warm_up::{WarmUpResult, WarmUpResults};
use vstd::prelude::*;

verus! {

/// A time of `nanos` nanoseconds, in milliseconds.
pub open spec fn millis(nanos: nat) -> Number {
    Number { digits: decimal_digits(nanos), exponent: -6 }
}

/// Gives a time of `nanos` nanoseconds in milliseconds.
pub fn nanos_to_millis(nanos: u128) -> (ms: Decimal)
    ensures
        ms@ == millis(nanos as nat),
        ms@.mantissa() == nanos,
        ms.wf(),
{
    Decimal::from_integer(nanos, -6)
}

/// The three latencies of a latency line, in milliseconds.
#[derive(Debug)]
pub struct LatencyRow {
    pub mean_ms: Decimal,
    pub std_dev_ms: Decimal,
    pub max_ms: Decimal,
}

impl LatencyRow {
    /// Converts latencies in nanoseconds to milliseconds.
    pub fn from(data: &MetricData<u64>) -> (row: LatencyRow)
        ensures
            row.mean_ms@ == millis(data.mean as nat),
            row.std_dev_ms@ == millis(data.std_dev as nat),
            row.max_ms@ == millis(data.max as nat),
            row.mean_ms.wf() && row.std_dev_ms.wf() && row.max_ms.wf(),
    {
        LatencyRow {
            mean_ms: nanos_to_millis(data.mean as u128),
            std_dev_ms: nanos_to_millis(data.std_dev as u128),
            max_ms: nanos_to_millis(data.max as u128),
        }
    }
}

/// The first latency metric among `metrics` from position `from` on.
pub open spec fn first_latency(metrics: Seq<MetricValue>, from: int) -> Option<MetricData<u64>>
    decreases metrics.len() - from,
{
    if from < 0 || from >= metrics.len() {
        None
    } else {
        match metrics[from] {
            MetricValue::Latency(d) => Some(d),
            MetricValue::Qps(_) => first_latency(metrics, from + 1),
        }
    }
}

/// The first throughput metric among `metrics` from position `from` on.
pub open spec fn first_qps(metrics: Seq<MetricValue>, from: int) -> Option<MetricData<Number>>
    decreases metrics.len() - from,
{
    if from < 0 || from >= metrics.len() {
        None
    } else {
        match metrics[from] {
            MetricValue::Qps(d) => Some(d),
            MetricValue::Latency(_) => first_qps(metrics, from + 1),
        }
    }
}

/// One row of the table of measured runs.
#[derive(Debug)]
pub struct PerfResultRow<'a> {
    pub name: &'a str,
    pub path: &'a str,
    pub server_name: &'a str,
    pub num_cpus: usize,
    pub ram_mb: usize,
    pub target: String,
    pub latency_mean_ms: Decimal,
    pub latency_std_dev_ms: Decimal,
    pub latency_max_ms: Decimal,
    pub qps_mean: Decimal,
    pub qps_std_dev: Decimal,
    pub qps_max: Decimal,
}

/// The mathematical value of a [`PerfResultRow`].
pub struct PerfRowValue {
    pub name: Seq<char>,
    pub path: Seq<char>,
    pub server_name: Seq<char>,
    pub num_cpus: usize,
    pub ram_mb: usize,
    pub target: Seq<char>,
    pub latency_mean_ms: Number,
    pub latency_std_dev_ms: Number,
    pub latency_max_ms: Number,
    pub qps_mean: Number,
    pub qps_std_dev: Number,
    pub qps_max: Number,
}

impl<'a> View for PerfResultRow<'a> {
    type V = PerfRowValue;

    open spec fn view(&self) -> PerfRowValue {
        PerfRowValue {
            name: self.name@,
            path: self.path@,
            server_name: self.server_name@,
            num_cpus: self.num_cpus,
            ram_mb: self.ram_mb,
            target: self.target@,
            latency_mean_ms: self.latency_mean_ms@,
            latency_std_dev_ms: self.latency_std_dev_ms@,
            latency_max_ms: self.latency_max_ms@,
            qps_mean: self.qps_mean@,
            qps_std_dev: self.qps_std_dev@,
            qps_max: self.qps_max@,
        }
    }
}

/// The row for a target and a path with the given latencies, in nanoseconds,
/// and request rates.
pub open spec fn perf_row(
    target: TestTarget,
    path: PathText,
    latency: MetricData<u64>,
    qps: MetricData<Number>,
) -> PerfRowValue {
    PerfRowValue {
        name: path.name,
        path: path.path,
        server_name: target.server_name@,
        num_cpus: target.num_cpus,
        ram_mb: target.ram_mb,
        target: target.spec_name(),
        latency_mean_ms: millis(latency.mean as nat),
        latency_std_dev_ms: millis(latency.std_dev as nat),
        latency_max_ms: millis(latency.max as nat),
        qps_mean: qps.mean,
        qps_std_dev: qps.std_dev,
        qps_max: qps.max,
    }
}

/// The row that the metrics of one measured run give: of the first latency
/// metric and the first throughput metric. Without a latency metric there is
/// no row, and without a throughput metric there is none either.
pub open spec fn spec_perf_row(
    target: TestTarget,
    path: PathText,
    metrics: Seq<MetricValue>,
) -> Result<PerfRowValue, BenchError> {
    match first_latency(metrics, 0) {
        None => Err(BenchError::MissingLatency),
        Some(latency) => match first_qps(metrics, 0) {
            None => Err(BenchError::MissingThroughput),
            Some(qps) => Ok(perf_row(target, path, latency, qps)),
        },
    }
}

/// Finds the first latency metric.
fn find_latency(metrics: &Vec<Metric>) -> (r: Option<MetricData<u64>>)
    ensures
        r == first_latency(metric_values(metrics@), 0),
{
    let mut i: usize = 0;
    while i < metrics.len()
        invariant
            i <= metrics.len(),
            first_latency(metric_values(metrics@), 0) == first_latency(
                metric_values(metrics@),
                i as int,
            ),
        decreases metrics.len() - i,
    {
        match &metrics[i] {
            Metric::Latency(d) => {
                return Some(MetricData { mean: d.mean, std_dev: d.std_dev, max: d.max });
            },
            Metric::Qps(_) => {},
        }
        i += 1;
    }
    None
}

/// Finds the first throughput metric and copies it.
fn find_qps(metrics: &Vec<Metric>) -> (r: Option<MetricData<Decimal>>)
    ensures
        match first_qps(metric_values(metrics@), 0) {
            Some(d) => r is Some && r.unwrap().mean@ == d.mean && r.unwrap().std_dev@ == d.std_dev
                && r.unwrap().max@ == d.max,
            None => r is None,
        },
{
    let mut i: usize = 0;
    while i < metrics.len()
        invariant
            i <= metrics.len(),
            first_qps(metric_values(metrics@), 0) == first_qps(metric_values(metrics@), i as int),
        decreases metrics.len() - i,
    {
        match &metrics[i] {
            Metric::Qps(d) => {
                return Some(
                    MetricData {
                        mean: d.mean.duplicate(),
                        std_dev: d.std_dev.duplicate(),
                        max: d.max.duplicate(),
                    },
                );
            },
            Metric::Latency(_) => {},
        }
        i += 1;
    }
    None
}

/// Builds the row of a target, a path and the metrics of one measured run.
fn build_row<'a>(target: &TestTarget<'a>, path: &'a TestPath, metrics: &Vec<Metric>) -> (r: Result<
    PerfResultRow<'a>,
    BenchError,
>)
    ensures
        match spec_perf_row(*target, path@, metric_values(metrics@)) {
            Ok(row) => r is Ok && r.unwrap()@ == row,
            Err(e) => r is Err && r->Err_0 == e,
        },
{
    let latency = match find_latency(metrics) {
        Some(d) => LatencyRow::from(&d),
        None => {
            return Err(BenchError::MissingLatency);
        },
    };
    let qps = match find_qps(metrics) {
        Some(d) => d,
        None => {
            return Err(BenchError::MissingThroughput);
        },
    };
    Ok(
        PerfResultRow {
            name: path.name.as_str(),
            path: path.path.as_str(),
            server_name: target.server_name,
            num_cpus: target.num_cpus,
            ram_mb: target.ram_mb,
            target: target.name(),
            latency_mean_ms: latency.mean_ms,
            latency_std_dev_ms: latency.std_dev_ms,
            latency_max_ms: latency.max_ms,
            qps_mean: qps.mean,
            qps_std_dev: qps.std_dev,
            qps_max: qps.max,
        },
    )
}

impl<'a> PerfResultRow<'a> {
    /// The row of one result of the performance sweep: its path and target,
    /// the first latency metric in milliseconds and the first throughput
    /// metric. A result without latency metric, or without throughput metric,
    /// gives the error that says which is missing, and no row.
    pub fn from(result: PerfResult<'a, 'a>) -> (r: Result<PerfResultRow<'a>, BenchError>)
        ensures
            match spec_perf_row(result.target, result.path@, metric_values(result.metrics@)) {
                Ok(row) => r is Ok && r.unwrap()@ == row,
                Err(e) => r is Err && r->Err_0 == e,
            },
    {
        build_row(&result.target, result.path, &result.metrics)
    }

    /// The row of one result of the single-request benchmark, made as that
    /// of a result of the performance sweep.
    pub fn from_single(result: SingleResult<'a, 'a>) -> (r: Result<PerfResultRow<'a>, BenchError>)
        ensures
            match spec_perf_row(result.target, result.path@, metric_values(result.metrics@)) {
                Ok(row) => r is Ok && r.unwrap()@ == row,
                Err(e) => r is Err && r->Err_0 == e,
            },
    {
        build_row(&result.target, result.path, &result.metrics)
    }
}

/// One row of the table of request latencies of the warm-up benchmark.
#[derive(Debug)]
pub struct WarmUpRequestRow<'a> {
    pub name: &'a str,
    pub path: &'a str,
    pub server_name: &'a str,
    pub num_cpus: usize,
    pub ram_mb: usize,
    pub target: String,
    /// The place of the request among those of its container start, from one.
    pub request_number: usize,
    pub latency_ms: Decimal,
}

/// The mathematical value of a [`WarmUpRequestRow`].
pub struct RequestRowValue {
    pub name: Seq<char>,
    pub path: Seq<char>,
    pub server_name: Seq<char>,
    pub num_cpus: usize,
    pub ram_mb: usize,
    pub target: Seq<char>,
    pub request_number: int,
    pub latency_ms: Number,
}

impl<'a> View for WarmUpRequestRow<'a> {
    type V = RequestRowValue;

    open spec fn view(&self) -> RequestRowValue {
        RequestRowValue {
            name: self.name@,
            path: self.path@,
            server_name: self.server_name@,
            num_cpus: self.num_cpus,
            ram_mb: self.ram_mb,
            target: self.target@,
            request_number: self.request_number as int,
            latency_ms: self.latency_ms@,
        }
    }
}

/// The values of a list of request rows.
pub open spec fn request_row_values(rows: Seq<WarmUpRequestRow>) -> Seq<RequestRowValue> {
    Seq::new(rows.len(), |i: int| rows[i]@)
}

/// The row of the request at position `i` of one container start.
pub open spec fn request_row(target: TestTarget, result: WarmUpResult, i: int) -> RequestRowValue {
    RequestRowValue {
        name: result.path.name@,
        path: result.path.path@,
        server_name: target.server_name@,
        num_cpus: target.num_cpus,
        ram_mb: target.ram_mb,
        target: target.spec_name(),
        request_number: i + 1,
        latency_ms: millis(result.latencies@[i] as nat),
    }
}

/// The rows of the requests of one container start, in the order in which
/// they were sent.
pub open spec fn request_rows_of(target: TestTarget, result: WarmUpResult) -> Seq<
    RequestRowValue,
> {
    Seq::new(result.latencies@.len(), |i: int| request_row(target, result, i))
}

/// The rows of the requests of the first `n` container starts: those of the
/// first start, then those of the second, and so on.
pub open spec fn spec_request_rows(target: TestTarget, per_path: Seq<WarmUpResult>, n: nat) -> Seq<
    RequestRowValue,
>
    decreases n,
{
    if n == 0 || n > per_path.len() {
        Seq::empty()
    } else {
        spec_request_rows(target, per_path, (n - 1) as nat) + request_rows_of(
            target,
            per_path[n - 1],
        )
    }
}

/// The table of request latencies that a target's warm-up results give: one
/// row for each request of each container start, in the order of the starts
/// and, within a start, of the requests, which are numbered from one.
pub fn request_rows<'a>(results: &WarmUpResults<'a, 'a>) -> (rows: Vec<WarmUpRequestRow<'a>>)
    ensures
        request_row_values(rows@) == spec_request_rows(
            results.target,
            results.per_path@,
            results.per_path@.len(),
        ),
        forall|k: int| 0 <= k < rows@.len() ==> (#[trigger] rows@[k]).latency_ms.wf(),
{
    let mut rows: Vec<WarmUpRequestRow<'a>> = Vec::new();
    let mut p: usize = 0;
    assert(request_row_values(rows@) =~= Seq::<RequestRowValue>::empty());
    while p < results.per_path.len()
        invariant
            p <= results.per_path.len(),
            request_row_values(rows@) == spec_request_rows(
                results.target,
                results.per_path@,
                p as nat,
            ),
            forall|k: int| 0 <= k < rows@.len() ==> (#[trigger] rows@[k]).latency_ms.wf(),
        decreases results.per_path.len() - p,
    {
        let path_result = &results.per_path[p];
        let ghost before = request_row_values(rows@);
        let mut i: usize = 0;
        while i < path_result.latencies.len()
            invariant
                i <= path_result.latencies.len(),
                request_row_values(rows@) == before + request_rows_of(
                    results.target,
                    *path_result,
                ).take(i as int),
                forall|k: int| 0 <= k < rows@.len() ==> (#[trigger] rows@[k]).latency_ms.wf(),
            decreases path_result.latencies.len() - i,
        {
            let ghost sofar = request_row_values(rows@);
            let row = WarmUpRequestRow {
                name: path_result.path.name.as_str(),
                path: path_result.path.path.as_str(),
                server_name: results.target.server_name,
                num_cpus: results.target.num_cpus,
                ram_mb: results.target.ram_mb,
                target: results.target.name(),
                request_number: i + 1,
                latency_ms: nanos_to_millis(path_result.latencies[i]),
            };
            assert(row@ == request_row(results.target, *path_result, i as int));
            rows.push(row);
            assert(request_row_values(rows@) =~= sofar.push(row@));
            assert(request_row_values(rows@) =~= before + request_rows_of(
                results.target,
                *path_result,
            ).take(i + 1));
            i += 1;
        }
        assert(request_rows_of(results.target, *path_result).take(
            path_result.latencies@.len() as int,
        ) =~= request_rows_of(results.target, *path_result));
        p += 1;
    }
    rows
}

/// One row of the table of start-up times of the warm-up benchmark.
#[derive(Debug)]
pub struct ServerStartRow<'a> {
    pub name: &'a str,
    pub path: &'a str,
    pub server_name: &'a str,
    pub num_cpus: usize,
    pub ram_mb: usize,
    pub target: String,
    pub start_up_latency_ms: Decimal,
}

/// The mathematical value of a [`ServerStartRow`].
pub struct StartRowValue {
    pub name: Seq<char>,
    pub path: Seq<char>,
    pub server_name: Seq<char>,
    pub num_cpus: usize,
    pub ram_mb: usize,
    pub target: Seq<char>,
    pub start_up_latency_ms: Number,
}

impl<'a> View for ServerStartRow<'a> {
    type V = StartRowValue;

    open spec fn view(&self) -> StartRowValue {
        StartRowValue {
            name: self.name@,
            path: self.path@,
            server_name: self.server_name@,
            num_cpus: self.num_cpus,
            ram_mb: self.ram_mb,
            target: self.target@,
            start_up_latency_ms: self.start_up_latency_ms@,
        }
    }
}

/// The values of a list of start-up rows.
pub open spec fn start_row_values(rows: Seq<ServerStartRow>) -> Seq<StartRowValue> {
    Seq::new(rows.len(), |i: int| rows[i]@)
}

/// The row of one container start.
pub open spec fn start_row(target: TestTarget, result: WarmUpResult) -> StartRowValue {
    StartRowValue {
        name: result.path.name@,
        path: result.path.path@,
        server_name: target.server_name@,
        num_cpus: target.num_cpus,
        ram_mb: target.ram_mb,
        target: target.spec_name(),
        start_up_latency_ms: millis(result.startup_time as nat),
    }
}

/// The rows of the container starts, in their order.
pub open spec fn spec_start_rows(target: TestTarget, per_path: Seq<WarmUpResult>) -> Seq<
    StartRowValue,
> {
    Seq::new(per_path.len(), |i: int| start_row(target, per_path[i]))
}

/// The table of start-up times that a target's warm-up results give: one row
/// for each container start, in the order of the starts.
pub fn start_time_rows<'a>(results: &WarmUpResults<'a, 'a>) -> (rows: Vec<ServerStartRow<'a>>)
    ensures
        start_row_values(rows@) == spec_start_rows(results.target, results.per_path@),
        forall|k: int| 0 <= k < rows@.len() ==> (#[trigger] rows@[k]).start_up_latency_ms.wf(),
{
    let mut rows: Vec<ServerStartRow<'a>> = Vec::new();
    let mut p: usize = 0;
    while p < results.per_path.len()
        invariant
            p <= results.per_path.len(),
            start_row_values(rows@) == spec_start_rows(results.target, results.per_path@).take(
                p as int,
            ),
            forall|k: int| 0 <= k < rows@.len() ==> (#[trigger] rows@[k]).start_up_latency_ms.wf(),
        decreases results.per_path.len() - p,
    {
        let path_result = &results.per_path[p];
        let ghost sofar = start_row_values(rows@);
        let row = ServerStartRow {
            name: path_result.path.name.as_str(),
            path: path_result.path.path.as_str(),
            server_name: results.target.server_name,
            num_cpus: results.target.num_cpus,
            ram_mb: results.target.ram_mb,
            target: results.target.name(),
            start_up_latency_ms: nanos_to_millis(path_result.startup_time),
        };
        rows.push(row);
        assert(start_row_values(rows@) =~= sofar.push(row@));
        assert(start_row_values(rows@) =~= spec_start_rows(results.target, results.per_path@).take(
            p + 1,
        ));
        p += 1;
    }
    assert(spec_start_rows(results.target, results.per_path@).take(
        results.per_path@.len() as int,
    ) =~= spec_start_rows(results.target, results.per_path@));
    rows
}

} // verus!
