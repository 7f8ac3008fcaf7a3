//! The performance sweep: for each path a short run that is thrown away, then
//! a measured run.

use crate::error::BenchError;
use crate::grammar::wrk_metrics;
use crate::lifecycle::{
    all_within, all_work_on, count, is_orderly, is_round, lemma_count_concat, lemma_count_session,
    lemma_round_concat, lemma_round_is_orderly, lemma_session_is_round, lemma_session_within,
    lemma_small_rounds, lemma_within_concat, lemma_within_more, push_session, rows_of, session,
    starts_of, Command,
};
use crate::metrics::{metric_values, parse_wrk_output, Metric};
use crate::paths::{entry, long_hello, long_hello_path, path_texts, push_path, PathText, TestPath};
use crate::targets::TestTarget;
use crate::wrk::{check_exit, ToolExit};
use vstd::prelude::*;

verus! {

/// The seconds of the run that is thrown away before each measured run.
pub const WARM_UP_SECONDS: u64 = 1;

/// The seconds of each measured run.
pub const MEASURE_SECONDS: u64 = 10;

/// What one measured run gave for one target and one path.
#[derive(Debug)]
pub struct PerfResult<'a, 'b> {
    pub target: TestTarget<'b>,
    pub path: &'a TestPath,
    pub metrics: Vec<Metric>,
}

impl<'a, 'b> PerfResult<'a, 'b> {
    /// A result for `target` and `path` that holds no metric yet.
    pub fn new(target: TestTarget<'b>, path: &'a TestPath) -> (result: Self)
        ensures
            result.target == target,
            result.path == path,
            result.metrics@.len() == 0,
    {
        PerfResult { target, path, metrics: Vec::new() }
    }

    /// Adds the metrics that a block of the load generator's output gives,
    /// in the order of its lines, after those that are there.
    pub fn push_wrk_results(&mut self, out: &str)
        ensures
            final(self).target == old(self).target,
            final(self).path == old(self).path,
            final(self).metrics@.len() >= old(self).metrics@.len(),
            final(self).metrics@.take(old(self).metrics@.len() as int) == old(self).metrics@,
            metric_values(final(self).metrics@) == metric_values(old(self).metrics@) + wrk_metrics(
                out@,
            ),
            forall|i: int|
                old(self).metrics@.len() <= i < final(self).metrics@.len() ==> (
                #[trigger] final(self).metrics@[i]).wf(),
    {
        let mut parsed = parse_wrk_output(out);
        let ghost added = parsed@;
        self.metrics.append(&mut parsed);
        assert(metric_values(self.metrics@) =~= metric_values(old(self).metrics@) + metric_values(
            added,
        ));
        assert(self.metrics@.take(old(self).metrics@.len() as int) =~= old(self).metrics@);
    }
}

/// The paths of the performance sweep.
pub open spec fn spec_test_paths() -> Seq<PathText> {
    seq![
        entry("/strings/hello"@, "hello"@),
        entry("/strings/hello?name=fluffy%20dog"@, "hello-param"@),
        entry(long_hello_path(256), "hello-long"@),
        entry("/strings/async-hello"@, "async-hello"@),
        entry("/strings/lines?n=10000"@, "lines"@),
        entry("/static/scout.webp"@, "static-img"@),
        entry("/static/basic.html"@, "static-text"@),
        entry("/math/power-reciprocals-alt?n=10000"@, "math-powers-light"@),
        entry("/math/power-reciprocals-alt?n=10000000"@, "math-powers-heavy"@),
    ]
}

/// The nine paths of the performance sweep, in the order in which they are
/// measured.
pub fn test_paths() -> (paths: Vec<TestPath>)
    ensures
        path_texts(paths@) == spec_test_paths(),
        paths@.len() == PATH_COUNT,
{
    let mut paths: Vec<TestPath> = Vec::new();
    assert(path_texts(paths@) =~= Seq::<PathText>::empty());
    push_path(&mut paths, "/strings/hello", "hello");
    push_path(&mut paths, "/strings/hello?name=fluffy%20dog", "hello-param");
    push_path(&mut paths, long_hello(256).as_str(), "hello-long");
    push_path(&mut paths, "/strings/async-hello", "async-hello");
    push_path(&mut paths, "/strings/lines?n=10000", "lines");
    push_path(&mut paths, "/static/scout.webp", "static-img");
    push_path(&mut paths, "/static/basic.html", "static-text");
    push_path(&mut paths, "/math/power-reciprocals-alt?n=10000", "math-powers-light");
    push_path(&mut paths, "/math/power-reciprocals-alt?n=10000000", "math-powers-heavy");
    assert(path_texts(paths@) =~= spec_test_paths());
    paths
}

/// Turns the outcome of a measured run into a result: the metrics of its
/// output where the load generator reported success, and the error that
/// carries its exit code where it did not.
pub fn bench_path<'a, 'b>(
    target: TestTarget<'b>,
    path: &'a TestPath,
    exit: &ToolExit,
    out: &str,
) -> (r: Result<PerfResult<'a, 'b>, BenchError>)
    ensures
        exit.success ==> r is Ok && r.unwrap().target == target && r.unwrap().path == path
            && metric_values(r.unwrap().metrics@) == wrk_metrics(out@) && forall|i: int|
            0 <= i < r.unwrap().metrics@.len() ==> (#[trigger] r.unwrap().metrics@[i]).wf(),
        !exit.success ==> r is Err && r->Err_0 == (BenchError::ToolFailed { code: exit.code }),
{
    match check_exit(exit) {
        Err(e) => Err(e),
        Ok(()) => {
            let mut result = PerfResult::new(target, path);
            assert(metric_values(result.metrics@) =~= Seq::empty());
            result.push_wrk_results(out);
            assert(metric_values(result.metrics@) =~= wrk_metrics(out@));
            Ok(result)
        },
    }
}

/// The number of paths of the performance sweep.
pub const PATH_COUNT: usize = 9;

/// The work on the container of `target` for the first `paths` paths: for
/// each path in turn, a short run that is thrown away and a measured run.
pub open spec fn spec_work(target: usize, paths: nat) -> Seq<Command>
    decreases paths,
{
    if paths == 0 {
        Seq::empty()
    } else {
        spec_work(target, (paths - 1) as nat) + seq![
            Command::Measure {
                target,
                path: (paths - 1) as usize,
                seconds: WARM_UP_SECONDS,
                record: false,
            },
            Command::Measure {
                target,
                path: (paths - 1) as usize,
                seconds: MEASURE_SECONDS,
                record: true,
            },
        ]
    }
}

/// The commands of the performance sweep for the first `targets` targets:
/// for each target in turn one life of its container, gated by the health
/// endpoint, with the work on all paths.
pub open spec fn spec_plan(targets: nat) -> Seq<Command>
    decreases targets,
{
    if targets == 0 {
        Seq::empty()
    } else {
        spec_plan((targets - 1) as nat) + session(
            (targets - 1) as usize,
            Command::AwaitHealthy { target: (targets - 1) as usize },
            spec_work((targets - 1) as usize, PATH_COUNT as nat),
        )
    }
}

/// The work on the container of `target`.
fn work(target: usize) -> (cmds: Vec<Command>)
    ensures
        cmds@ == spec_work(target, PATH_COUNT as nat),
        all_work_on(cmds@, target),
        all_within(cmds@, (target + 1) as nat, PATH_COUNT as nat),
{
    let mut cmds: Vec<Command> = Vec::new();
    let mut path: usize = 0;
    while path < PATH_COUNT
        invariant
            path <= PATH_COUNT,
            cmds@ == spec_work(target, path as nat),
            all_work_on(cmds@, target),
            all_within(cmds@, (target + 1) as nat, PATH_COUNT as nat),
        decreases PATH_COUNT - path,
    {
        let ghost before = cmds@;
        cmds.push(Command::Measure { target, path, seconds: WARM_UP_SECONDS, record: false });
        cmds.push(Command::Measure { target, path, seconds: MEASURE_SECONDS, record: true });
        assert(cmds@ =~= before + seq![
            Command::Measure { target, path, seconds: WARM_UP_SECONDS, record: false },
            Command::Measure { target, path, seconds: MEASURE_SECONDS, record: true },
        ]);
        path += 1;
    }
    cmds
}

/// The commands of the performance sweep over `targets` targets, in the
/// order in which they are to be carried out. They are orderly: each
/// container is started after the removal of any container of its name, is
/// measured only once it has answered well, and is stopped before the next
/// target is touched.
pub fn plan(targets: usize) -> (cmds: Vec<Command>)
    ensures
        cmds@ == spec_plan(targets as nat),
        is_orderly(cmds@),
        all_within(cmds@, targets as nat, PATH_COUNT as nat),
{
    let mut cmds: Vec<Command> = Vec::new();
    let mut target: usize = 0;
    proof {
        lemma_small_rounds(0);
    }
    while target < targets
        invariant
            target <= targets,
            cmds@ == spec_plan(target as nat),
            is_round(cmds@),
            all_within(cmds@, target as nat, PATH_COUNT as nat),
        decreases targets - target,
    {
        let work = work(target);
        let gate = Command::AwaitHealthy { target };
        let ghost before = cmds@;
        push_session(&mut cmds, target, gate, &work);
        proof {
            lemma_session_is_round(target, gate, work@);
            lemma_round_concat(before, session(target, gate, work@));
            lemma_within_more(before, target as nat, (target + 1) as nat, PATH_COUNT as nat);
            lemma_session_within(target, gate, work@, (target + 1) as nat, PATH_COUNT as nat);
            lemma_within_concat(
                before,
                session(target, gate, work@),
                (target + 1) as nat,
                PATH_COUNT as nat,
            );
        }
        target += 1;
    }
    proof {
        lemma_round_is_orderly(cmds@);
    }
    cmds
}

/// The work on a container gives one row for each path, and starts no
/// container.
proof fn lemma_work_size(target: usize, paths: nat)
    ensures
        rows_of(spec_work(target, paths)) == paths,
        starts_of(spec_work(target, paths)) == 0,
    decreases paths,
{
    if paths > 0 {
        lemma_work_size(target, (paths - 1) as nat);
        let path = (paths - 1) as usize;
        let discarded = Command::Measure { target, path, seconds: WARM_UP_SECONDS, record: false };
        let measured = Command::Measure { target, path, seconds: MEASURE_SECONDS, record: true };
        let pair = seq![discarded, measured];
        let one = seq![discarded];
        assert(pair.drop_last() =~= one);
        assert(one.drop_last() =~= Seq::<Command>::empty());
        assert(pair.last() == measured);
        assert(one.last() == discarded);
        let rows = |c: Command| c.is_recorded();
        let starts = |c: Command| c is Start;
        assert(count(Seq::<Command>::empty(), rows) == 0);
        assert(count(Seq::<Command>::empty(), starts) == 0);
        assert(count(one, rows) == 0);
        assert(count(one, starts) == 0);
        assert(count(pair, rows) == 1);
        assert(count(pair, starts) == 0);
        lemma_count_concat(spec_work(target, (paths - 1) as nat), pair, rows);
        lemma_count_concat(spec_work(target, (paths - 1) as nat), pair, starts);
    }
}

/// The performance sweep gives one row for each target and path, and starts
/// one container for each target.
pub proof fn lemma_plan_size(targets: nat)
    ensures
        rows_of(spec_plan(targets)) == targets * PATH_COUNT,
        starts_of(spec_plan(targets)) == targets,
    decreases targets,
{
    if targets > 0 {
        lemma_plan_size((targets - 1) as nat);
        let target = (targets - 1) as usize;
        let gate = Command::AwaitHealthy { target };
        let work = spec_work(target, PATH_COUNT as nat);
        lemma_work_size(target, PATH_COUNT as nat);
        lemma_count_session(target, gate, work, |c: Command| c.is_recorded());
        lemma_count_session(target, gate, work, |c: Command| c is Start);
        lemma_count_concat(
            spec_plan((targets - 1) as nat),
            session(target, gate, work),
            |c: Command| c.is_recorded(),
        );
        lemma_count_concat(
            spec_plan((targets - 1) as nat),
            session(target, gate, work),
            |c: Command| c is Start,
        );
        assert(targets * PATH_COUNT == (targets - 1) * PATH_COUNT + PATH_COUNT)
            by (nonlinear_arith);
    }
}

/// The name of the table of the performance sweep, within the directory of
/// the mode.
pub fn table_name() -> (name: &'static str)
    ensures
        name@ == "benchmarks.csv"@,
{
    "benchmarks.csv"
}

} // verus!
