//! The load test: several users at once against each target, in two
//! iterations with a pause after each.

use crate::lifecycle::{
    all_within, all_work_on, count, is_orderly, is_round, lemma_count_concat, lemma_count_session,
    lemma_round_concat, lemma_round_is_orderly, lemma_session_is_round, lemma_session_within,
    lemma_small_rounds, lemma_within_concat, lemma_within_more, push_session, session, starts_of,
    Command,
};
use crate::paths::{entry, long_hello, long_hello_path, path_texts, push_path, PathText, TestPath};
use crate::text::{decimal_text, push_decimal};
use vstd::prelude::*;
use vstd::string::*;

verus! {

/// The iterations of the load test for each target.
pub const ITERATIONS: usize = 2;

/// The seconds of pause after each iteration.
pub const COOL_DOWN_SECONDS: u64 = 5;

/// The users that send requests at once.
pub const USERS: usize = 6;

/// The seconds that a request of a user may take.
pub const REQUEST_TIMEOUT_SECONDS: u64 = 10;

/// The settings of one iteration of the load test.
#[derive(Debug)]
pub struct LoadSettings {
    /// The address of the server under test.
    pub host: String,
    /// The users that send requests at once.
    pub users: usize,
    /// The time over which the users are started.
    pub startup_time: String,
    /// The time for which the test runs once all users are started.
    pub run_time: String,
    /// The name of the file of the report.
    pub report_file: String,
    /// The name of the file of the request log.
    pub request_log: String,
    /// The name by which the users call themselves.
    pub user_agent: String,
    /// Whether the users accept compressed answers.
    pub accept_compressed: bool,
    /// The seconds that a request may take.
    pub timeout_seconds: u64,
}

/// The name of the report of an iteration.
pub open spec fn spec_report_name(iteration: nat) -> Seq<char> {
    "report-"@ + decimal_text(iteration) + ".html"@
}

/// The name of the request log of an iteration.
pub open spec fn spec_request_log_name(iteration: nat) -> Seq<char> {
    "requests-"@ + decimal_text(iteration) + ".csv"@
}

/// The name of the file, within the target's directory, to which the report
/// of the iteration goes.
pub fn report_log_path(iteration: usize) -> (name: String)
    ensures
        name@ == spec_report_name(iteration as nat),
{
    let mut name = String::new();
    name.append("report-");
    push_decimal(&mut name, iteration as u128);
    name.append(".html");
    assert(name@ =~= spec_report_name(iteration as nat));
    name
}

/// The name of the file, within the target's directory, to which the request
/// log of the iteration goes.
pub fn request_log_path(iteration: usize) -> (name: String)
    ensures
        name@ == spec_request_log_name(iteration as nat),
{
    let mut name = String::new();
    name.append("requests-");
    push_decimal(&mut name, iteration as u128);
    name.append(".csv");
    assert(name@ =~= spec_request_log_name(iteration as nat));
    name
}

/// The settings of the given iteration of the load test: six users, started
/// over sixty seconds, then ten seconds of running, against the local server;
/// report and request log named after the iteration.
pub fn bench_target(is_compressed: bool, iteration: usize) -> (settings: LoadSettings)
    ensures
        settings.host@ == "http://localhost:8080"@,
        settings.users == USERS,
        settings.startup_time@ == "60s"@,
        settings.run_time@ == "10s"@,
        settings.report_file@ == spec_report_name(iteration as nat),
        settings.request_log@ == spec_request_log_name(iteration as nat),
        settings.user_agent@ == "http-load-tester/0.0.1"@,
        settings.accept_compressed == is_compressed,
        settings.timeout_seconds == REQUEST_TIMEOUT_SECONDS,
{
    LoadSettings {
        host: "http://localhost:8080".to_owned(),
        users: USERS,
        startup_time: "60s".to_owned(),
        run_time: "10s".to_owned(),
        report_file: report_log_path(iteration),
        request_log: request_log_path(iteration),
        user_agent: "http-load-tester/0.0.1".to_owned(),
        accept_compressed: is_compressed,
        timeout_seconds: REQUEST_TIMEOUT_SECONDS,
    }
}

/// The paths that the users request for texts.
pub open spec fn spec_strings_paths() -> Seq<PathText> {
    seq![
        entry("/strings/hello"@, "hello"@),
        entry("/strings/hello?name=cool%20gal"@, "hello-param"@),
        entry(long_hello_path(499), "hello-long"@),
        entry("/strings/async-hello"@, "async-hello"@),
        entry("/strings/lines?n=10000"@, "lines"@),
    ]
}

/// The paths that the users request for files.
pub open spec fn spec_static_paths() -> Seq<PathText> {
    seq![
        entry("/static/basic.html"@, "basic-html"@),
        entry("/static/scout.webp"@, "scout-img"@),
    ]
}

/// The paths that the users request for computations.
pub open spec fn spec_math_paths() -> Seq<PathText> {
    seq![
        entry("/math/power-reciprocals-alt?n=1000"@, "power-sum-easy"@),
        entry("/math/power-reciprocals-alt?n=10000000"@, "power-sum-hard"@),
    ]
}

/// The paths of the scenario group `strings`, in the order in which a user
/// requests them.
pub fn loadtest_strings() -> (paths: Vec<TestPath>)
    ensures
        path_texts(paths@) == spec_strings_paths(),
{
    let mut paths: Vec<TestPath> = Vec::new();
    assert(path_texts(paths@) =~= Seq::<PathText>::empty());
    push_path(&mut paths, "/strings/hello", "hello");
    push_path(&mut paths, "/strings/hello?name=cool%20gal", "hello-param");
    push_path(&mut paths, long_hello(499).as_str(), "hello-long");
    push_path(&mut paths, "/strings/async-hello", "async-hello");
    push_path(&mut paths, "/strings/lines?n=10000", "lines");
    assert(path_texts(paths@) =~= spec_strings_paths());
    paths
}

/// The paths of the scenario group `static`, in the order in which a user
/// requests them.
pub fn loadtest_static() -> (paths: Vec<TestPath>)
    ensures
        path_texts(paths@) == spec_static_paths(),
{
    let mut paths: Vec<TestPath> = Vec::new();
    assert(path_texts(paths@) =~= Seq::<PathText>::empty());
    push_path(&mut paths, "/static/basic.html", "basic-html");
    push_path(&mut paths, "/static/scout.webp", "scout-img");
    assert(path_texts(paths@) =~= spec_static_paths());
    paths
}

/// The paths of the scenario group `math`, in the order in which a user
/// requests them.
pub fn loadtest_math() -> (paths: Vec<TestPath>)
    ensures
        path_texts(paths@) == spec_math_paths(),
{
    let mut paths: Vec<TestPath> = Vec::new();
    assert(path_texts(paths@) =~= Seq::<PathText>::empty());
    push_path(&mut paths, "/math/power-reciprocals-alt?n=1000", "power-sum-easy");
    push_path(&mut paths, "/math/power-reciprocals-alt?n=10000000", "power-sum-hard");
    assert(path_texts(paths@) =~= spec_math_paths());
    paths
}

/// The first `iterations` iterations on the container of `target`, each with
/// the pause after it. Iterations are numbered from one.
pub open spec fn spec_iterations(target: usize, iterations: nat) -> Seq<Command>
    decreases iterations,
{
    if iterations == 0 {
        Seq::empty()
    } else {
        spec_iterations(target, (iterations - 1) as nat) + seq![
            Command::LoadTest { target, iteration: iterations as usize },
            Command::Pause { target, seconds: COOL_DOWN_SECONDS },
        ]
    }
}

/// The work on the container of `target`: its directory is made ready, then
/// come the iterations.
pub open spec fn spec_work(target: usize) -> Seq<Command> {
    seq![Command::PrepareDir { target }] + spec_iterations(target, ITERATIONS as nat)
}

/// The commands of the load test for the first `targets` targets: for each
/// target in turn one life of its container, gated by the health endpoint.
pub open spec fn spec_plan(targets: nat) -> Seq<Command>
    decreases targets,
{
    if targets == 0 {
        Seq::empty()
    } else {
        spec_plan((targets - 1) as nat) + session(
            (targets - 1) as usize,
            Command::AwaitHealthy { target: (targets - 1) as usize },
            spec_work((targets - 1) as usize),
        )
    }
}

/// The work on the container of `target`.
fn work(target: usize) -> (cmds: Vec<Command>)
    ensures
        cmds@ == spec_work(target),
        all_work_on(cmds@, target),
        all_within(cmds@, (target + 1) as nat, 0),
{
    let mut cmds: Vec<Command> = Vec::new();
    cmds.push(Command::PrepareDir { target });
    let ghost head = cmds@;
    let mut done: usize = 0;
    assert(cmds@ =~= head + spec_iterations(target, 0));
    while done < ITERATIONS
        invariant
            done <= ITERATIONS,
            head == seq![Command::PrepareDir { target }],
            cmds@ == head + spec_iterations(target, done as nat),
            all_work_on(cmds@, target),
            all_within(cmds@, (target + 1) as nat, 0),
        decreases ITERATIONS - done,
    {
        let ghost before = cmds@;
        cmds.push(Command::LoadTest { target, iteration: done + 1 });
        cmds.push(Command::Pause { target, seconds: COOL_DOWN_SECONDS });
        assert(cmds@ =~= head + spec_iterations(target, (done + 1) as nat));
        done += 1;
    }
    cmds
}

/// The commands of the load test over `targets` targets, in the order in
/// which they are to be carried out. They are orderly: each container is
/// started after the removal of any container of its name, is loaded only
/// once it has answered well, and is stopped before the next target is
/// touched.
pub fn plan(targets: usize) -> (cmds: Vec<Command>)
    ensures
        cmds@ == spec_plan(targets as nat),
        is_orderly(cmds@),
        all_within(cmds@, targets as nat, 0),
{
    let mut cmds: Vec<Command> = Vec::new();
    let mut target: usize = 0;
    proof {
        lemma_small_rounds(0);
    }
    while target < targets
        invariant
            target <= targets,
            cmds@ == spec_plan(target as nat),
            is_round(cmds@),
            all_within(cmds@, target as nat, 0),
        decreases targets - target,
    {
        let work = work(target);
        let gate = Command::AwaitHealthy { target };
        let ghost before = cmds@;
        push_session(&mut cmds, target, gate, &work);
        proof {
            lemma_session_is_round(target, gate, work@);
            lemma_round_concat(before, session(target, gate, work@));
            lemma_within_more(before, target as nat, (target + 1) as nat, 0);
            lemma_session_within(target, gate, work@, (target + 1) as nat, 0);
            lemma_within_concat(
                before,
                session(target, gate, work@),
                (target + 1) as nat,
                0,
            );
        }
        target += 1;
    }
    proof {
        lemma_round_is_orderly(cmds@);
    }
    cmds
}

/// The load test runs as many iterations as are set for each target, and
/// starts one container for each target.
pub proof fn lemma_plan_size(targets: nat)
    ensures
        count(spec_plan(targets), |c: Command| c is LoadTest) == targets * ITERATIONS,
        starts_of(spec_plan(targets)) == targets,
    decreases targets,
{
    if targets > 0 {
        lemma_plan_size((targets - 1) as nat);
        let target = (targets - 1) as usize;
        let gate = Command::AwaitHealthy { target };
        let work = spec_work(target);
        let tests = |c: Command| c is LoadTest;
        let starts = |c: Command| c is Start;
        lemma_iterations_size(target, ITERATIONS as nat);
        let prepare = seq![Command::PrepareDir { target }];
        assert(prepare.drop_last() =~= Seq::<Command>::empty());
        assert(count(Seq::<Command>::empty(), tests) == 0);
        assert(count(Seq::<Command>::empty(), starts) == 0);
        assert(count(prepare, tests) == 0);
        assert(count(prepare, starts) == 0);
        lemma_count_concat(prepare, spec_iterations(target, ITERATIONS as nat), tests);
        lemma_count_concat(prepare, spec_iterations(target, ITERATIONS as nat), starts);
        lemma_count_session(target, gate, work, tests);
        lemma_count_session(target, gate, work, starts);
        lemma_count_concat(spec_plan((targets - 1) as nat), session(target, gate, work), tests);
        lemma_count_concat(spec_plan((targets - 1) as nat), session(target, gate, work), starts);
    }
}

/// The first `iterations` iterations hold as many load tests and no start.
proof fn lemma_iterations_size(target: usize, iterations: nat)
    ensures
        count(spec_iterations(target, iterations), |c: Command| c is LoadTest) == iterations,
        starts_of(spec_iterations(target, iterations)) == 0,
    decreases iterations,
{
    if iterations > 0 {
        lemma_iterations_size(target, (iterations - 1) as nat);
        let test = Command::LoadTest { target, iteration: iterations as usize };
        let pause = Command::Pause { target, seconds: COOL_DOWN_SECONDS };
        let pair = seq![test, pause];
        let one = seq![test];
        assert(pair.drop_last() =~= one);
        assert(one.drop_last() =~= Seq::<Command>::empty());
        assert(pair.last() == pause);
        assert(one.last() == test);
        let tests = |c: Command| c is LoadTest;
        let starts = |c: Command| c is Start;
        assert(count(Seq::<Command>::empty(), tests) == 0);
        assert(count(Seq::<Command>::empty(), starts) == 0);
        assert(count(one, tests) == 1);
        assert(count(one, starts) == 0);
        assert(count(pair, tests) == 1);
        assert(count(pair, starts) == 0);
        lemma_count_concat(spec_iterations(target, (iterations - 1) as nat), pair, tests);
        lemma_count_concat(spec_iterations(target, (iterations - 1) as nat), pair, starts);
    }
}

/// What is to be done about the directory of a target's reports.
#[derive(Debug, Clone, Copy, PartialEq, Eq, Structural)]
pub enum TargetDir {
    /// The directory is to be made, with the directories above it.
    Create,
    /// The files in the directory are to be removed.
    Clear,
}

/// Decides what is to be done about the directory of a target's reports
/// before its load test: a directory that is there is cleared, one that is
/// not is made.
pub fn prepare_dir(is_there: bool) -> (action: TargetDir)
    ensures
        is_there ==> action == TargetDir::Clear,
        !is_there ==> action == TargetDir::Create,
{
    if is_there {
        TargetDir::Clear
    } else {
        TargetDir::Create
    }
}

} // verus!
