use http_load_tester::cli::{prep_out_dir, Cli, Mode, OutDir};
use http_load_tester::docker::{
    health_url, is_healthy, remove_args, removal_outcome, start_args, stop_args, stop_outcome,
};
use http_load_tester::error::BenchError;
use http_load_tester::lifecycle::{check_orderly, Command, Phase};
use http_load_tester::load;
use http_load_tester::perf;
use http_load_tester::runner::{
    AbortReason, Directive, Outcome, Runner, Status, PROBE_LIMIT, WAIT_LIMIT_MILLIS,
};
use http_load_tester::single;
use http_load_tester::targets::TestTarget;
use http_load_tester::warm_up;
use http_load_tester::wrk::{check_exit, target_url, wrk_args, ToolExit};

/// A probe that was not answered well, shortly after the first.
const NOT_YET: Outcome = Outcome::NotYet { waited_millis: 5 };

#[test]
fn start_arguments_carry_name_image_and_limits() {
    let target = TestTarget { server_name: "rust/actix", num_cpus: 2, ram_mb: 128, is_compressed: true };
    assert_eq!(
        start_args(&target),
        [
            "run",
            "-m",
            "128m",
            "--memory-swap",
            "128m",
            "--cpus",
            "2",
            "-p",
            "8080:8080",
            "--name",
            "rust-actix-compressed-cpus-2-ram-128m",
            "hello-rust/actix",
        ]
    );
}

#[test]
fn remove_and_stop_arguments_name_the_container() {
    assert_eq!(remove_args("some-name"), ["rm", "-f", "some-name"]);
    assert_eq!(stop_args("some-name"), ["stop", "some-name"]);
}

#[test]
fn removal_never_fails() {
    // Removing a container that is not there fails in the runtime; the run
    // goes on all the same, the first time and every time after.
    assert!(removal_outcome(true).is_ok());
    assert!(removal_outcome(false).is_ok());
    assert!(removal_outcome(false).is_ok());
}

#[test]
fn a_failed_stop_is_an_error() {
    assert!(stop_outcome(true, "exit status: 0").is_ok());
    let e = stop_outcome(false, "exit status: 1").unwrap_err();
    assert!(matches!(&e, BenchError::StopFailed { status } if status == "exit status: 1"));
    assert_eq!(e.message(), "Exited with status code exit status: 1");
}

#[test]
fn health_is_a_success_status() {
    assert_eq!(health_url(), "http://localhost:8080/strings/hello");
    assert!(!is_healthy(None));
    for (code, healthy) in [(199, false), (200, true), (204, true), (299, true), (300, false), (404, false), (500, false), (0, false), (u16::MAX, false)] {
        assert_eq!(is_healthy(Some(code)), healthy, "{}", code);
    }
}

#[test]
fn load_generator_arguments() {
    assert_eq!(
        wrk_args("http://localhost:8080/strings/hello", 10),
        ["-t", "1", "-c", "1", "-d", "10s", "http://localhost:8080/strings/hello"]
    );
    assert_eq!(wrk_args("u", 1)[5], "1s");
    assert_eq!(wrk_args("u", 30)[5], "30s");
    let path = http_load_tester::paths::TestPath::new("/static/basic.html", "static-text");
    assert_eq!(target_url(&path), "http://localhost:8080/static/basic.html");
}

#[test]
fn a_failed_load_generator_is_an_error_with_its_code() {
    assert!(check_exit(&ToolExit { success: true, code: Some(0) }).is_ok());
    let e = check_exit(&ToolExit { success: false, code: Some(1) }).unwrap_err();
    assert!(matches!(e, BenchError::ToolFailed { code: Some(1) }));
    assert_eq!(e.message(), "Failed to run wrk; code: Some(1)");
    let e = check_exit(&ToolExit { success: false, code: None }).unwrap_err();
    assert_eq!(e.message(), "Failed to run wrk; code: None");
    let e = check_exit(&ToolExit { success: false, code: Some(-2) }).unwrap_err();
    assert_eq!(e.message(), "Failed to run wrk; code: Some(-2)");
    let e = check_exit(&ToolExit { success: false, code: Some(i32::MIN) }).unwrap_err();
    assert_eq!(e.message(), "Failed to run wrk; code: Some(-2147483648)");
}

#[test]
fn error_messages() {
    assert_eq!(
        BenchError::OutDirNotDirectory { out_dir: "out".to_string() }.message(),
        "out_dir out already exists, but is not a directory"
    );
    assert_eq!(BenchError::OutOfOrder.message(), "Commands out of order");
    assert_eq!(
        BenchError::HealthTimeout { probes: 12 }.message(),
        "Container was not healthy after 12 probes"
    );
    assert_eq!(BenchError::MissingLatency.message(), "No latency line in the load generator's output");
    assert_eq!(
        BenchError::MissingThroughput.message(),
        "No throughput line in the load generator's output"
    );
}

#[test]
fn path_catalogs() {
    let names = |paths: Vec<http_load_tester::paths::TestPath>| -> Vec<String> {
        paths.into_iter().map(|p| p.name).collect()
    };
    assert_eq!(
        names(perf::test_paths()),
        [
            "hello",
            "hello-param",
            "hello-long",
            "async-hello",
            "lines",
            "static-img",
            "static-text",
            "math-powers-light",
            "math-powers-heavy"
        ]
    );
    assert_eq!(perf::test_paths().len(), perf::PATH_COUNT);
    assert_eq!(
        names(single::test_paths()),
        [
            "hello",
            "hello-param",
            "hello-long",
            "lines",
            "static-img",
            "static-text",
            "math-powers-light",
            "math-powers-heavy"
        ]
    );
    assert_eq!(single::test_paths().len(), single::PATH_COUNT);
    assert_eq!(names(warm_up::test_paths()), ["hello", "lines", "static-text", "powers-sum"]);
    assert_eq!(warm_up::test_paths().len(), warm_up::PATH_COUNT);
    let warm: Vec<String> = warm_up::test_paths().into_iter().map(|p| p.path).collect();
    assert_eq!(
        warm,
        [
            "/strings/hello",
            "/strings/lines?n=50000",
            "/static/basic.html",
            "/math/power-reciprocals-alt?n=1000000"
        ]
    );
    let sweep: Vec<String> = perf::test_paths().into_iter().map(|p| p.path).collect();
    assert_eq!(sweep[0], "/strings/hello");
    assert_eq!(sweep[1], "/strings/hello?name=fluffy%20dog");
    assert_eq!(sweep[2], format!("/strings/hello?name={}", "a".repeat(256)));
    assert_eq!(sweep[3], "/strings/async-hello");
    assert_eq!(sweep[4], "/strings/lines?n=10000");
    assert_eq!(sweep[5], "/static/scout.webp");
    assert_eq!(sweep[6], "/static/basic.html");
    assert_eq!(sweep[7], "/math/power-reciprocals-alt?n=10000");
    assert_eq!(sweep[8], "/math/power-reciprocals-alt?n=10000000");
    assert_eq!(names(load::loadtest_strings()), ["hello", "hello-param", "hello-long", "async-hello", "lines"]);
    assert_eq!(load::loadtest_strings()[1].path, "/strings/hello?name=cool%20gal");
    assert_eq!(load::loadtest_strings()[2].path, format!("/strings/hello?name={}", "a".repeat(499)));
    assert_eq!(names(load::loadtest_static()), ["basic-html", "scout-img"]);
    assert_eq!(names(load::loadtest_math()), ["power-sum-easy", "power-sum-hard"]);
    assert_eq!(load::loadtest_math()[0].path, "/math/power-reciprocals-alt?n=1000");
}

#[test]
fn load_settings() {
    let s = load::bench_target(true, 2);
    assert_eq!(s.host, "http://localhost:8080");
    assert_eq!(s.users, 6);
    assert_eq!(s.startup_time, "60s");
    assert_eq!(s.run_time, "10s");
    assert_eq!(s.report_file, "report-2.html");
    assert_eq!(s.request_log, "requests-2.csv");
    assert_eq!(s.user_agent, "http-load-tester/0.0.1");
    assert!(s.accept_compressed);
    assert_eq!(s.timeout_seconds, 10);
    assert!(!load::bench_target(false, 1).accept_compressed);
    assert_eq!(load::report_log_path(1), "report-1.html");
    assert_eq!(load::request_log_path(10), "requests-10.csv");
}

#[test]
fn the_performance_sweep_warms_up_then_measures_each_path() {
    let plan = perf::plan(2);
    assert_eq!(plan.len(), 2 * (3 + 2 * 9 + 1));
    assert_eq!(
        &plan[..5],
        [
            Command::Remove { target: 0 },
            Command::Start { target: 0 },
            Command::AwaitHealthy { target: 0 },
            Command::Measure { target: 0, path: 0, seconds: 1, record: false },
            Command::Measure { target: 0, path: 0, seconds: 10, record: true },
        ]
    );
    assert_eq!(plan[20], Command::Measure { target: 0, path: 8, seconds: 10, record: true });
    assert_eq!(plan[21], Command::Stop { target: 0 });
    assert_eq!(plan[22], Command::Remove { target: 1 });
    assert_eq!(plan[43], Command::Stop { target: 1 });
    let recorded = plan.iter().filter(|c| matches!(c, Command::Measure { record: true, .. })).count();
    assert_eq!(recorded, 2 * 9);
    assert!(check_orderly(&plan));
    assert!(perf::plan(0).is_empty());
}

#[test]
fn the_single_request_benchmark_measures_each_path_once() {
    let plan = single::plan(1);
    assert_eq!(plan.len(), 3 + 8 + 1);
    assert_eq!(plan[2], Command::AwaitHealthy { target: 0 });
    for path in 0..8 {
        assert_eq!(plan[3 + path], Command::Measure { target: 0, path, seconds: 30, record: true });
    }
    assert_eq!(plan[11], Command::Stop { target: 0 });
    assert!(check_orderly(&single::plan(3)));
    let t = single::single_target("rust/actix", true);
    assert_eq!((t.server_name, t.num_cpus, t.ram_mb, t.is_compressed), ("rust/actix", 1, 128, true));
}

#[test]
fn the_load_test_runs_two_iterations_with_pauses() {
    assert_eq!(
        load::plan(1),
        [
            Command::Remove { target: 0 },
            Command::Start { target: 0 },
            Command::AwaitHealthy { target: 0 },
            Command::PrepareDir { target: 0 },
            Command::LoadTest { target: 0, iteration: 1 },
            Command::Pause { target: 0, seconds: 5 },
            Command::LoadTest { target: 0, iteration: 2 },
            Command::Pause { target: 0, seconds: 5 },
            Command::Stop { target: 0 },
        ]
    );
    assert!(check_orderly(&load::plan(4)));
    assert_eq!(load::prepare_dir(true), load::TargetDir::Clear);
    assert_eq!(load::prepare_dir(false), load::TargetDir::Create);
}

#[test]
fn the_warm_up_benchmark_restarts_the_container_for_every_repetition() {
    let plan = warm_up::plan(2);
    let per_start = 3 + 5 + 1;
    assert_eq!(plan.len(), 2 * (4 * 3 * per_start + 1));
    assert_eq!(
        &plan[..per_start],
        [
            Command::Remove { target: 0 },
            Command::Start { target: 0 },
            Command::AwaitFirstResponse { target: 0, path: 0 },
            Command::Request { target: 0, path: 0 },
            Command::Request { target: 0, path: 0 },
            Command::Request { target: 0, path: 0 },
            Command::Request { target: 0, path: 0 },
            Command::Request { target: 0, path: 0 },
            Command::Stop { target: 0 },
        ]
    );
    assert_eq!(plan[3 * per_start + 2], Command::AwaitFirstResponse { target: 0, path: 1 });
    assert_eq!(plan[4 * 3 * per_start], Command::WriteWarmUp { target: 0 });
    assert_eq!(plan[4 * 3 * per_start + 1], Command::Remove { target: 1 });
    assert_eq!(*plan.last().unwrap(), Command::WriteWarmUp { target: 1 });
    let starts = plan.iter().filter(|c| matches!(c, Command::Start { .. })).count();
    assert_eq!(starts, 2 * 4 * 3);
    assert!(check_orderly(&plan));
}

#[test]
fn plans_name_only_targets_and_paths_that_are_there() {
    for targets in 0..4usize {
        let plans = [
            (perf::plan(targets), perf::PATH_COUNT),
            (single::plan(targets), single::PATH_COUNT),
            (load::plan(targets), 0),
            (warm_up::plan(targets), warm_up::PATH_COUNT),
        ];
        for (plan, paths) in plans {
            for cmd in plan {
                assert!(cmd.target() < targets);
                match cmd {
                    Command::AwaitFirstResponse { path, .. }
                    | Command::Measure { path, .. }
                    | Command::Request { path, .. } => assert!(path < paths),
                    _ => {}
                }
            }
        }
    }
}

#[test]
fn disorderly_plans_are_told_apart() {
    assert!(check_orderly(&Vec::new()));
    assert!(check_orderly(&vec![Command::WriteWarmUp { target: 0 }]));
    // A removal may be repeated.
    assert!(check_orderly(&vec![
        Command::Remove { target: 0 },
        Command::Remove { target: 0 },
        Command::Start { target: 0 },
        Command::AwaitHealthy { target: 0 },
        Command::Stop { target: 0 },
    ]));
    // A start without the removal before it.
    assert!(!check_orderly(&vec![Command::Start { target: 0 }]));
    // A measurement before the health gate.
    assert!(!check_orderly(&vec![
        Command::Remove { target: 0 },
        Command::Start { target: 0 },
        Command::Measure { target: 0, path: 0, seconds: 1, record: true },
        Command::Stop { target: 0 },
    ]));
    // A container left up.
    assert!(!check_orderly(&vec![
        Command::Remove { target: 0 },
        Command::Start { target: 0 },
        Command::AwaitHealthy { target: 0 },
    ]));
    // A second container while the first is up.
    assert!(!check_orderly(&vec![
        Command::Remove { target: 0 },
        Command::Start { target: 0 },
        Command::AwaitHealthy { target: 0 },
        Command::Remove { target: 1 },
    ]));
    // Work on another target's container.
    assert!(!check_orderly(&vec![
        Command::Remove { target: 0 },
        Command::Start { target: 0 },
        Command::AwaitHealthy { target: 0 },
        Command::Request { target: 1, path: 0 },
        Command::Stop { target: 0 },
    ]));
    // The start of another target than the one removed.
    assert!(!check_orderly(&vec![Command::Remove { target: 0 }, Command::Start { target: 1 }]));
}

#[test]
fn phases_follow_the_life_of_the_container() {
    let idle = Phase::Idle;
    let deleting = idle.enter(&Command::Remove { target: 7 }).unwrap();
    assert_eq!(deleting, Phase::Deleting(7));
    let starting = deleting.enter(&Command::Start { target: 7 }).unwrap();
    assert_eq!(starting, Phase::Starting(7));
    let polling = starting.enter(&Command::AwaitHealthy { target: 7 }).unwrap();
    assert_eq!(polling, Phase::HealthPolling(7));
    let ready = polling.enter(&Command::PrepareDir { target: 7 }).unwrap();
    assert_eq!(ready, Phase::Ready(7));
    assert_eq!(ready.enter(&Command::Pause { target: 7, seconds: 5 }), Some(Phase::Ready(7)));
    let down = ready.enter(&Command::Stop { target: 7 }).unwrap();
    assert_eq!(down, Phase::TearingDown(7));
    assert_eq!(down.enter(&Command::Remove { target: 8 }), Some(Phase::Deleting(8)));
    assert_eq!(down.enter(&Command::WriteWarmUp { target: 7 }), Some(Phase::Idle));
    assert_eq!(polling.enter(&Command::Stop { target: 7 }), Some(Phase::TearingDown(7)));
    assert_eq!(deleting.enter(&Command::Remove { target: 7 }), Some(Phase::Deleting(7)));
    assert_eq!(ready.enter(&Command::Remove { target: 7 }), None);
    assert_eq!(idle.enter(&Command::Stop { target: 7 }), None);
    assert_eq!(ready.enter(&Command::Start { target: 7 }), None);
    assert_eq!(starting.enter(&Command::Stop { target: 7 }), None);
    assert_eq!(ready.enter(&Command::Stop { target: 6 }), None);
}

#[test]
fn a_run_gives_the_commands_in_order() {
    let plan = load::plan(2);
    let mut runner = Runner::new(plan.clone(), 10, 1_000);
    assert_eq!(runner.status(), Status::Waiting);
    assert_eq!(runner.phase(), Phase::Idle);
    let mut directive = runner.step(Outcome::Succeeded);
    for (i, cmd) in plan.iter().enumerate() {
        assert_eq!(directive, Directive::Perform(*cmd));
        assert_eq!(runner.position(), i);
        assert_eq!(runner.status(), Status::Running);
        directive = runner.step(Outcome::Succeeded);
    }
    assert_eq!(directive, Directive::Finish);
    assert_eq!(runner.status(), Status::Finished);
    assert_eq!(runner.phase(), Phase::Idle);
    assert_eq!(runner.step(Outcome::Failed), Directive::Finish);
}

#[test]
fn a_failure_ends_the_run() {
    let mut runner = Runner::new(perf::plan(3), 10, 1_000);
    assert_eq!(runner.step(Outcome::Succeeded), Directive::Perform(Command::Remove { target: 0 }));
    assert_eq!(runner.step(Outcome::Succeeded), Directive::Perform(Command::Start { target: 0 }));
    assert_eq!(runner.phase(), Phase::Starting(0));
    assert_eq!(runner.step(Outcome::Failed), Directive::Abort(AbortReason::CommandFailed));
    assert_eq!(runner.status(), Status::Aborted(AbortReason::CommandFailed));
    // Nothing is tried again, and the next target is not touched.
    assert_eq!(runner.step(Outcome::Succeeded), Directive::Abort(AbortReason::CommandFailed));
    assert_eq!(runner.step(NOT_YET), Directive::Abort(AbortReason::CommandFailed));
}

#[test]
fn a_health_gate_is_probed_until_the_limit() {
    let mut runner = Runner::new(perf::plan(1), 3, 1_000);
    runner.step(Outcome::Succeeded);
    runner.step(Outcome::Succeeded);
    let gate = Command::AwaitHealthy { target: 0 };
    assert_eq!(runner.step(Outcome::Succeeded), Directive::Perform(gate));
    assert_eq!(runner.phase(), Phase::HealthPolling(0));
    assert_eq!(runner.step(NOT_YET), Directive::Perform(gate));
    assert_eq!(runner.step(NOT_YET), Directive::Perform(gate));
    assert_eq!(
        runner.step(NOT_YET),
        Directive::Abort(AbortReason::HealthTimeout { probes: 3 })
    );

    let mut runner = Runner::new(perf::plan(1), 3, 1_000);
    runner.step(Outcome::Succeeded);
    runner.step(Outcome::Succeeded);
    runner.step(Outcome::Succeeded);
    assert_eq!(runner.step(NOT_YET), Directive::Perform(gate));
    assert_eq!(runner.step(NOT_YET), Directive::Perform(gate));
    assert_eq!(
        runner.step(Outcome::Succeeded),
        Directive::Perform(Command::Measure { target: 0, path: 0, seconds: 1, record: false })
    );
    assert_eq!(runner.phase(), Phase::Ready(0));
    // Only a health gate may be not yet done.
    assert_eq!(runner.step(NOT_YET), Directive::Abort(AbortReason::CommandFailed));

    for limit in [0, 1] {
        let mut runner = Runner::new(perf::plan(1), limit, 1_000);
        runner.step(Outcome::Succeeded);
        runner.step(Outcome::Succeeded);
        runner.step(Outcome::Succeeded);
        assert_eq!(
            runner.step(NOT_YET),
            Directive::Abort(AbortReason::HealthTimeout { probes: 1 })
        );
    }
}

#[test]
fn a_run_that_ended_early_has_its_error() {
    assert!(AbortReason::CommandFailed.error().is_none());
    assert!(matches!(
        AbortReason::HealthTimeout { probes: 9 }.error(),
        Some(BenchError::HealthTimeout { probes: 9 })
    ));
    assert!(matches!(AbortReason::OutOfOrder.error(), Some(BenchError::OutOfOrder)));
}

#[test]
fn tables_have_their_names() {
    assert_eq!(perf::table_name(), "benchmarks.csv");
    assert_eq!(single::table_name(), "single-benchmarks.csv");
    assert_eq!(warm_up::requests_table_name(), "request-benchmarks.csv");
    assert_eq!(warm_up::start_times_table_name(), "start-time-benchmarks.csv");
}

#[test]
fn a_health_gate_waits_no_longer_than_allowed() {
    let gate = Command::AwaitHealthy { target: 0 };
    let at = |waited_millis: u64| Outcome::NotYet { waited_millis };
    let mut runner = Runner::new(perf::plan(1), 1_000_000, 30_000);
    runner.step(Outcome::Succeeded);
    runner.step(Outcome::Succeeded);
    assert_eq!(runner.step(Outcome::Succeeded), Directive::Perform(gate));
    assert_eq!(runner.step(at(0)), Directive::Perform(gate));
    assert_eq!(runner.step(at(29_999)), Directive::Perform(gate));
    assert_eq!(runner.step(at(30_000)), Directive::Abort(AbortReason::HealthTimeout { probes: 3 }));
    assert_eq!(runner.step(at(0)), Directive::Abort(AbortReason::HealthTimeout { probes: 3 }));

    // With no time allowed, a gate is still probed once.
    let mut runner = Runner::new(perf::plan(1), 1_000_000, 0);
    runner.step(Outcome::Succeeded);
    runner.step(Outcome::Succeeded);
    assert_eq!(runner.step(Outcome::Succeeded), Directive::Perform(gate));
    assert_eq!(runner.step(at(0)), Directive::Abort(AbortReason::HealthTimeout { probes: 1 }));

    // The limits that the library sets are finite.
    assert_eq!(PROBE_LIMIT, 10_000_000);
    assert_eq!(WAIT_LIMIT_MILLIS, 120_000);
    let mut runner = Runner::new(perf::plan(1), PROBE_LIMIT, WAIT_LIMIT_MILLIS);
    runner.step(Outcome::Succeeded);
    runner.step(Outcome::Succeeded);
    runner.step(Outcome::Succeeded);
    assert_eq!(runner.step(at(119_999)), Directive::Perform(gate));
    assert_eq!(runner.step(at(120_000)), Directive::Abort(AbortReason::HealthTimeout { probes: 2 }));
}

#[test]
fn a_run_refuses_a_command_out_of_order() {
    let mut runner = Runner::new(vec![Command::Remove { target: 0 }, Command::Stop { target: 0 }], 1, 1_000);
    assert_eq!(runner.step(Outcome::Succeeded), Directive::Perform(Command::Remove { target: 0 }));
    assert_eq!(runner.step(Outcome::Succeeded), Directive::Abort(AbortReason::OutOfOrder));
    assert_eq!(runner.step(Outcome::Succeeded), Directive::Abort(AbortReason::OutOfOrder));
    let mut empty = Runner::new(Vec::new(), 1, 1_000);
    assert_eq!(empty.step(Outcome::Succeeded), Directive::Finish);
}

#[test]
fn every_run_ends() {
    // Whatever is reported, a run is over after a bounded number of steps.
    let plan = warm_up::plan(1);
    let limit = 4u64;
    let bound = plan.len() as u64 * (limit + 2) + 1;
    for pattern in 0..3u64 {
        let mut runner = Runner::new(plan.clone(), limit, 1_000);
        let mut steps = 0u64;
        loop {
            let outcome = match (pattern, steps % 3) {
                (0, _) => NOT_YET,
                (1, 0) | (1, 1) => NOT_YET,
                _ => Outcome::Succeeded,
            };
            let directive = runner.step(outcome);
            steps += 1;
            if !matches!(directive, Directive::Perform(_)) {
                break;
            }
            assert!(steps <= bound);
        }
        assert!(steps <= bound);
    }
}

#[test]
fn the_command_line_gives_targets_and_modes() {
    let cli = Cli {
        targets: vec!["rust/actix".to_string(), "go/std".to_string()],
        compress: true,
        perf: true,
        load: false,
        warm_up: true,
        out_dir: "out".to_string(),
        num_cpus: 4,
    };
    let targets = cli.test_targets();
    assert_eq!(targets.len(), 2);
    assert_eq!(targets[0].server_name, "rust/actix");
    assert_eq!(targets[1].server_name, "go/std");
    for t in &targets {
        assert_eq!((t.num_cpus, t.ram_mb, t.is_compressed), (4, 128, true));
    }
    assert_eq!(cli.modes(), [Mode::Perf, Mode::WarmUp]);
    let all = Cli { load: true, ..cli };
    assert_eq!(all.modes(), [Mode::Perf, Mode::Load, Mode::WarmUp]);
    let none = Cli { perf: false, load: false, warm_up: false, targets: Vec::new(), ..all };
    assert!(none.modes().is_empty());
    assert!(none.test_targets().is_empty());
    assert_eq!(Mode::Single.dir_name(), "single");
    assert_eq!(Mode::Perf.dir_name(), "perf");
    assert_eq!(Mode::Load.dir_name(), "load");
    assert_eq!(Mode::WarmUp.dir_name(), "warm_up");
}

#[test]
fn the_output_directory_is_used_made_or_refused() {
    assert_eq!(prep_out_dir("out", true, true).unwrap(), OutDir::Ready);
    assert_eq!(prep_out_dir("out", false, false).unwrap(), OutDir::Create);
    let e = prep_out_dir("out", false, true).unwrap_err();
    assert!(matches!(&e, BenchError::OutDirNotDirectory { out_dir } if out_dir == "out"));
}
