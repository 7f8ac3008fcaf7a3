//! The warm-up benchmark: how long a freshly started container takes to give
//! its first good answer, and how long the answers after it take.

use crate::lifecycle::{
    all_within, all_work_on, count, is_orderly, is_round, lemma_count_concat, lemma_count_session,
    lemma_round_concat, lemma_round_is_orderly, lemma_session_is_round, lemma_session_within,
    lemma_small_rounds, lemma_within_concat, lemma_within_more, push_session, requests_of, session,
    starts_of, Command,
};
use crate::paths::{entry, path_texts, push_path, PathText, TestPath};
use crate::targets::TestTarget;
use vstd::prelude::*;

verus! {

/// How often each path is measured; the container is started anew each time.
pub const REPETITIONS: usize = 3;

/// The requests that are timed after the first good answer.
pub const FOLLOW_UP_REQUESTS: usize = 5;

/// The milliseconds that a request may take to connect.
pub const CONNECT_TIMEOUT_MILLIS: u64 = 10;

/// The seconds that a request may take in all.
pub const REQUEST_TIMEOUT_SECONDS: u64 = 1;

/// What the warm-up benchmark gave for one target.
#[derive(Debug)]
pub struct WarmUpResults<'a, 'b> {
    pub target: TestTarget<'a>,
    /// One entry for each start of the container, in the order of the starts.
    pub per_path: Vec<WarmUpResult<'b>>,
}

impl<'a, 'b> WarmUpResults<'a, 'b> {
    /// Results for `target` that hold no entry yet.
    pub fn new(target: TestTarget<'a>) -> (results: Self)
        ensures
            results.target == target,
            results.per_path@.len() == 0,
    {
        Self { target, per_path: Vec::new() }
    }

    /// Adds what one start of the container gave, after the entries that are
    /// there.
    pub fn push(&mut self, result: WarmUpResult<'b>)
        ensures
            final(self).target == old(self).target,
            final(self).per_path@ == old(self).per_path@.push(result),
    {
        self.per_path.push(result);
    }
}

/// One request made while waiting for a freshly started container. Times are
/// in nanoseconds.
#[derive(Debug, Clone, Copy)]
pub struct Attempt {
    /// Whether an answer came, with a status of the success class.
    pub answered_well: bool,
    /// From the start of the container to the sending of the request.
    pub sent_after: u128,
    /// From the sending of the request to the arrival of its answer.
    pub took: u128,
}

impl Attempt {
    /// From the start of the container to the arrival of the answer.
    pub open spec fn answered_after(self) -> nat {
        (self.sent_after + self.took) as nat
    }

    /// The time of the arrival of the answer fits in 128 bits.
    pub open spec fn wf(self) -> bool {
        self.sent_after + self.took <= u128::MAX
    }

    /// Tells whether the time of the arrival of the answer fits in 128 bits.
    pub fn is_valid(&self) -> (ok: bool)
        ensures
            ok == self.wf(),
    {
        self.took <= u128::MAX - self.sent_after
    }
}

/// The place of the first request that was answered well, among `attempts`
/// from position `from` on.
pub open spec fn first_good(attempts: Seq<Attempt>, from: int) -> Option<int>
    decreases attempts.len() - from,
{
    if from < 0 || from >= attempts.len() {
        None
    } else if attempts[from].answered_well {
        Some(from)
    } else {
        first_good(attempts, from + 1)
    }
}

/// The first request that was answered well is one that was answered well,
/// and none before it was.
pub proof fn lemma_first_good(attempts: Seq<Attempt>, from: int)
    requires
        0 <= from,
    ensures
        first_good(attempts, from) matches Some(k) ==> {
            &&& from <= k < attempts.len()
            &&& attempts[k].answered_well
            &&& forall|i: int| from <= i < k ==> !(#[trigger] attempts[i]).answered_well
        },
        first_good(attempts, from) is None ==> forall|i: int|
            from <= i < attempts.len() ==> !(#[trigger] attempts[i]).answered_well,
    decreases attempts.len() - from,
{
    if from < attempts.len() && !attempts[from].answered_well {
        lemma_first_good(attempts, from + 1);
    }
}

/// What one start of the container gave for one path. Times are in
/// nanoseconds.
#[derive(Debug)]
pub struct WarmUpResult<'a> {
    pub path: &'a TestPath,
    /// From the start of the container to the arrival of the first good
    /// answer.
    pub startup_time: u128,
    /// How long each request took, in the order in which they were sent; the
    /// first is the first that was answered well.
    pub latencies: Vec<u128>,
}

impl<'a> WarmUpResult<'a> {
    /// The result is what the good answer `attempt` starts for `path`: the
    /// start-up time is the time from the start of the container to the
    /// arrival of that answer, and the one latency is its round trip.
    pub open spec fn starts_with(&self, path: &TestPath, attempt: Attempt) -> bool {
        &&& self.path == path
        &&& self.startup_time == attempt.answered_after()
        &&& self.latencies@ == seq![attempt.took]
    }

    /// The result is `before` with the time `took` of one more request after
    /// its latencies.
    pub open spec fn extends(&self, before: WarmUpResult, took: u128) -> bool {
        &&& self.path == before.path
        &&& self.startup_time == before.startup_time
        &&& self.latencies@ == before.latencies@.push(took)
    }

    /// A result for `path` with the given start-up time that holds no latency
    /// yet.
    pub fn new(path: &'a TestPath, startup_time: u128) -> (result: Self)
        ensures
            result.path == path,
            result.startup_time == startup_time,
            result.latencies@.len() == 0,
    {
        Self { path, startup_time, latencies: Vec::new() }
    }

    /// Judges one request made while waiting for the container. A good
    /// answer starts the result of this container start: the start-up time
    /// is the time from the start of the container to the arrival of the
    /// answer, and the round trip of the request is the first latency. Any
    /// other outcome gives nothing, and the wait goes on.
    pub fn first_response(path: &'a TestPath, attempt: Attempt) -> (r: Option<Self>)
        requires
            attempt.wf(),
        ensures
            !attempt.answered_well ==> r is None,
            attempt.answered_well ==> r is Some && r.unwrap().starts_with(path, attempt),
    {
        if attempt.answered_well {
            let mut result = WarmUpResult::new(path, attempt.sent_after + attempt.took);
            result.latencies.push(attempt.took);
            assert(result.latencies@ =~= seq![attempt.took]);
            Some(result)
        } else {
            None
        }
    }

    /// The outcome of a wait for the container, given the requests that were
    /// made, in the order in which they were sent. The wait ends with the
    /// first request that is answered well: the result starts with that
    /// request, and the requests before it leave no trace in it. The number
    /// beside the result is the number of requests that the wait took. Where
    /// no request is answered well, the wait has no outcome yet.
    pub fn wait_for_first_response(path: &'a TestPath, attempts: &Vec<Attempt>) -> (r: Option<
        (usize, Self),
    >)
        requires
            forall|i: int| 0 <= i < attempts@.len() ==> (#[trigger] attempts@[i]).wf(),
        ensures
            match first_good(attempts@, 0) {
                Some(k) => r is Some && r.unwrap().0 == k + 1 && r.unwrap().1.starts_with(
                    path,
                    attempts@[k],
                ),
                None => r is None,
            },
    {
        let mut i: usize = 0;
        while i < attempts.len()
            invariant
                i <= attempts.len(),
                first_good(attempts@, 0) == first_good(attempts@, i as int),
                forall|j: int| 0 <= j < attempts@.len() ==> (#[trigger] attempts@[j]).wf(),
            decreases attempts.len() - i,
        {
            match WarmUpResult::first_response(path, attempts[i]) {
                Some(result) => {
                    return Some((i + 1, result));
                },
                None => {},
            }
            i += 1;
        }
        None
    }

    /// Adds the time that one more request took, after the latencies that
    /// are there.
    pub fn record(&mut self, took: u128)
        ensures
            final(self).extends(*old(self), took),
    {
        self.latencies.push(took);
    }

    /// Tells whether another request is to be timed: as long as fewer than
    /// the follow-up requests have been timed after the first good answer.
    pub fn wants_request(&self) -> (more: bool)
        ensures
            more == (self.latencies@.len() < 1 + FOLLOW_UP_REQUESTS),
    {
        self.latencies.len() < 1 + FOLLOW_UP_REQUESTS
    }
}

/// The record of the warm-up benchmark of one target while it runs: what the
/// container starts that are over gave, and what the current one has given
/// so far.
#[derive(Debug)]
pub struct WarmUpRun<'a, 'b> {
    /// What the container starts that are over gave.
    pub results: WarmUpResults<'a, 'b>,
    /// What the current container start has given since its first good
    /// answer; nothing before that answer, and between starts.
    pub open: Option<WarmUpResult<'b>>,
}

impl<'a, 'b> WarmUpRun<'a, 'b> {
    /// The record of a benchmark of `target` that has not begun.
    pub fn new(target: TestTarget<'a>) -> (run: Self)
        ensures
            run.results.target == target,
            run.results.per_path@.len() == 0,
            run.open is None,
    {
        Self { results: WarmUpResults::new(target), open: None }
    }

    /// Takes note of one request made while waiting for the container, and
    /// tells whether the wait is over. A good answer opens the result of the
    /// current container start; any other outcome leaves none open.
    pub fn answered(&mut self, path: &'b TestPath, attempt: Attempt) -> (good: bool)
        requires
            attempt.wf(),
        ensures
            good == attempt.answered_well,
            final(self).results == old(self).results,
            good ==> final(self).open is Some && final(self).open.unwrap().starts_with(
                path,
                attempt,
            ),
            !good ==> final(self).open is None,
    {
        self.open = WarmUpResult::first_response(path, attempt);
        self.open.is_some()
    }

    /// Takes note of the time that one more request took, and tells whether
    /// it did: a time is noted only where a result is open and still wants a
    /// request. Otherwise nothing changes.
    pub fn timed(&mut self, took: u128) -> (noted: bool)
        ensures
            noted == (old(self).open matches Some(result) && result.latencies@.len() < 1
                + FOLLOW_UP_REQUESTS),
            final(self).results == old(self).results,
            noted ==> final(self).open is Some && final(self).open.unwrap().extends(
                old(self).open.unwrap(),
                took,
            ),
            !noted ==> final(self).open == old(self).open,
    {
        match self.open.take() {
            Some(mut result) => {
                let wanted = result.wants_request();
                if wanted {
                    result.record(took);
                }
                self.open = Some(result);
                wanted
            },
            None => false,
        }
    }

    /// Closes the current container start: the result that is open, if any,
    /// joins the results after those that are there, and none is open any
    /// more.
    pub fn stopped(&mut self)
        ensures
            final(self).open is None,
            final(self).results.target == old(self).results.target,
            final(self).results.per_path@ == match old(self).open {
                Some(result) => old(self).results.per_path@.push(result),
                None => old(self).results.per_path@,
            },
    {
        match self.open.take() {
            Some(result) => {
                self.results.push(result);
            },
            None => {},
        }
    }
}

/// The paths of the warm-up benchmark.
pub open spec fn spec_test_paths() -> Seq<PathText> {
    seq![
        entry("/strings/hello"@, "hello"@),
        entry("/strings/lines?n=50000"@, "lines"@),
        entry("/static/basic.html"@, "static-text"@),
        entry("/math/power-reciprocals-alt?n=1000000"@, "powers-sum"@),
    ]
}

/// The four paths of the warm-up benchmark, in the order in which they are
/// measured.
pub fn test_paths() -> (paths: Vec<TestPath>)
    ensures
        path_texts(paths@) == spec_test_paths(),
        paths@.len() == PATH_COUNT,
{
    let mut paths: Vec<TestPath> = Vec::new();
    assert(path_texts(paths@) =~= Seq::<PathText>::empty());
    push_path(&mut paths, "/strings/hello", "hello");
    push_path(&mut paths, "/strings/lines?n=50000", "lines");
    push_path(&mut paths, "/static/basic.html", "static-text");
    push_path(&mut paths, "/math/power-reciprocals-alt?n=1000000", "powers-sum");
    assert(path_texts(paths@) =~= spec_test_paths());
    paths
}

/// The number of paths of the warm-up benchmark.
pub const PATH_COUNT: usize = 4;

/// The requests that are timed after the first good answer of a container
/// start.
pub open spec fn spec_requests(target: usize, path: usize) -> Seq<Command> {
    Seq::new(FOLLOW_UP_REQUESTS as nat, |i: int| Command::Request { target, path })
}

/// One container start for a path: the container's life is gated by the
/// first good answer of the path itself, which is timed, and the work is the
/// requests after it.
pub open spec fn spec_start(target: usize, path: usize) -> Seq<Command> {
    session(target, Command::AwaitFirstResponse { target, path }, spec_requests(target, path))
}

/// The first `starts` container starts for a path.
pub open spec fn spec_starts(target: usize, path: usize, starts: nat) -> Seq<Command>
    decreases starts,
{
    if starts == 0 {
        Seq::empty()
    } else {
        spec_starts(target, path, (starts - 1) as nat) + spec_start(target, path)
    }
}

/// The container starts for the first `paths` paths: those of the first
/// path, then those of the second, and so on.
pub open spec fn spec_paths(target: usize, paths: nat) -> Seq<Command>
    decreases paths,
{
    if paths == 0 {
        Seq::empty()
    } else {
        spec_paths(target, (paths - 1) as nat) + spec_starts(
            target,
            (paths - 1) as usize,
            REPETITIONS as nat,
        )
    }
}

/// The commands of the warm-up benchmark for the first `targets` targets:
/// for each target in turn all its container starts, and then the writing of
/// its tables.
pub open spec fn spec_plan(targets: nat) -> Seq<Command>
    decreases targets,
{
    if targets == 0 {
        Seq::empty()
    } else {
        spec_plan((targets - 1) as nat) + spec_paths((targets - 1) as usize, PATH_COUNT as nat)
            + seq![Command::WriteWarmUp { target: (targets - 1) as usize }]
    }
}

/// The requests that are timed after the first good answer.
fn requests(target: usize, path: usize) -> (cmds: Vec<Command>)
    requires
        path < PATH_COUNT,
    ensures
        cmds@ == spec_requests(target, path),
        all_work_on(cmds@, target),
        all_within(cmds@, (target + 1) as nat, PATH_COUNT as nat),
{
    let mut cmds: Vec<Command> = Vec::new();
    let mut sent: usize = 0;
    while sent < FOLLOW_UP_REQUESTS
        invariant
            sent <= FOLLOW_UP_REQUESTS,
            cmds@ == Seq::new(sent as nat, |i: int| Command::Request { target, path }),
        decreases FOLLOW_UP_REQUESTS - sent,
    {
        cmds.push(Command::Request { target, path });
        assert(cmds@ =~= Seq::new((sent + 1) as nat, |i: int| Command::Request { target, path }));
        sent += 1;
    }
    cmds
}

/// Appends the container starts of one target.
fn push_paths(cmds: &mut Vec<Command>, target: usize)
    requires
        is_round(old(cmds)@),
        all_within(old(cmds)@, (target + 1) as nat, PATH_COUNT as nat),
    ensures
        final(cmds)@ == old(cmds)@ + spec_paths(target, PATH_COUNT as nat),
        is_round(final(cmds)@),
        all_within(final(cmds)@, (target + 1) as nat, PATH_COUNT as nat),
{
    let mut path: usize = 0;
    assert(cmds@ =~= old(cmds)@ + spec_paths(target, 0));
    while path < PATH_COUNT
        invariant
            path <= PATH_COUNT,
            cmds@ == old(cmds)@ + spec_paths(target, path as nat),
            is_round(cmds@),
            all_within(cmds@, (target + 1) as nat, PATH_COUNT as nat),
        decreases PATH_COUNT - path,
    {
        let ghost at_path = cmds@;
        let work = requests(target, path);
        let gate = Command::AwaitFirstResponse { target, path };
        let mut start: usize = 0;
        assert(cmds@ =~= at_path + spec_starts(target, path, 0));
        while start < REPETITIONS
            invariant
                start <= REPETITIONS,
                work@ == spec_requests(target, path),
                all_work_on(work@, target),
                gate == (Command::AwaitFirstResponse { target, path }),
                cmds@ == at_path + spec_starts(target, path, start as nat),
                is_round(cmds@),
                path < PATH_COUNT,
                all_within(work@, (target + 1) as nat, PATH_COUNT as nat),
                all_within(cmds@, (target + 1) as nat, PATH_COUNT as nat),
            decreases REPETITIONS - start,
        {
            let ghost before = cmds@;
            push_session(cmds, target, gate, &work);
            proof {
                lemma_session_is_round(target, gate, work@);
                lemma_round_concat(before, session(target, gate, work@));
                assert(cmds@ =~= at_path + spec_starts(target, path, (start + 1) as nat));
                lemma_session_within(
                    target,
                    gate,
                    work@,
                    (target + 1) as nat,
                    PATH_COUNT as nat,
                );
                lemma_within_concat(
                    before,
                    session(target, gate, work@),
                    (target + 1) as nat,
                    PATH_COUNT as nat,
                );
            }
            start += 1;
        }
        assert(cmds@ =~= old(cmds)@ + spec_paths(target, (path + 1) as nat));
        path += 1;
    }
}

/// The commands of the warm-up benchmark over `targets` targets, in the
/// order in which they are to be carried out. They are orderly: the
/// container is started anew for every repetition of every path, each time
/// after the removal of any container of its name; requests are timed only
/// once the path has answered well; and each container is stopped before the
/// next is started.
pub fn plan(targets: usize) -> (cmds: Vec<Command>)
    ensures
        cmds@ == spec_plan(targets as nat),
        is_orderly(cmds@),
        all_within(cmds@, targets as nat, PATH_COUNT as nat),
{
    let mut cmds: Vec<Command> = Vec::new();
    let mut target: usize = 0;
    proof {
        lemma_small_rounds(0);
    }
    while target < targets
        invariant
            target <= targets,
            cmds@ == spec_plan(target as nat),
            is_round(cmds@),
            all_within(cmds@, target as nat, PATH_COUNT as nat),
        decreases targets - target,
    {
        proof {
            lemma_within_more(cmds@, target as nat, (target + 1) as nat, PATH_COUNT as nat);
        }
        push_paths(&mut cmds, target);
        let ghost before = cmds@;
        cmds.push(Command::WriteWarmUp { target });
        proof {
            lemma_small_rounds(target);
            lemma_round_concat(before, seq![Command::WriteWarmUp { target }]);
            assert(cmds@ =~= before + seq![Command::WriteWarmUp { target }]);
        }
        target += 1;
    }
    proof {
        lemma_round_is_orderly(cmds@);
    }
    cmds
}

/// One container start times as many requests as are to follow the first
/// good answer.
proof fn lemma_start_size(target: usize, path: usize)
    ensures
        starts_of(spec_start(target, path)) == 1,
        requests_of(spec_start(target, path)) == FOLLOW_UP_REQUESTS,
{
    let work = spec_requests(target, path);
    let gate = Command::AwaitFirstResponse { target, path };
    lemma_requests_size(target, path, FOLLOW_UP_REQUESTS as nat);
    assert(work =~= Seq::new(
        FOLLOW_UP_REQUESTS as nat,
        |i: int| Command::Request { target, path },
    ));
    lemma_count_session(target, gate, work, |c: Command| c is Start);
    lemma_count_session(target, gate, work, |c: Command| c is Request);
}

/// A list of `n` requests holds `n` requests and no start.
proof fn lemma_requests_size(target: usize, path: usize, n: nat)
    ensures
        starts_of(Seq::new(n, |i: int| Command::Request { target, path })) == 0,
        requests_of(Seq::new(n, |i: int| Command::Request { target, path })) == n,
    decreases n,
{
    let all = Seq::new(n, |i: int| Command::Request { target, path });
    if n > 0 {
        lemma_requests_size(target, path, (n - 1) as nat);
        assert(all.drop_last() =~= Seq::new(
            (n - 1) as nat,
            |i: int| Command::Request { target, path },
        ));
    }
}

/// The warm-up benchmark starts the container as often as there are
/// repetitions, for each target and path, and times the follow-up requests
/// after each start.
pub proof fn lemma_plan_size(targets: nat)
    ensures
        starts_of(spec_plan(targets)) == targets * PATH_COUNT * REPETITIONS,
        requests_of(spec_plan(targets)) == targets * PATH_COUNT * REPETITIONS
            * FOLLOW_UP_REQUESTS,
    decreases targets,
{
    if targets > 0 {
        lemma_plan_size((targets - 1) as nat);
        let target = (targets - 1) as usize;
        lemma_paths_size(target, PATH_COUNT as nat);
        let write = seq![Command::WriteWarmUp { target }];
        assert(write.drop_last() =~= Seq::<Command>::empty());
        let starts = |c: Command| c is Start;
        let requests = |c: Command| c is Request;
        assert(count(Seq::<Command>::empty(), starts) == 0);
        assert(count(Seq::<Command>::empty(), requests) == 0);
        assert(count(write, starts) == 0);
        assert(count(write, requests) == 0);
        let before = spec_plan((targets - 1) as nat);
        let paths = spec_paths(target, PATH_COUNT as nat);
        lemma_count_concat(before, paths, starts);
        lemma_count_concat(before, paths, requests);
        lemma_count_concat(before + paths, write, starts);
        lemma_count_concat(before + paths, write, requests);
    }
}

/// The container starts of the first `paths` paths of a target.
proof fn lemma_paths_size(target: usize, paths: nat)
    ensures
        starts_of(spec_paths(target, paths)) == paths * REPETITIONS,
        requests_of(spec_paths(target, paths)) == paths * REPETITIONS * FOLLOW_UP_REQUESTS,
    decreases paths,
{
    if paths > 0 {
        lemma_paths_size(target, (paths - 1) as nat);
        let path = (paths - 1) as usize;
        lemma_starts_size(target, path, REPETITIONS as nat);
        lemma_count_concat(
            spec_paths(target, (paths - 1) as nat),
            spec_starts(target, path, REPETITIONS as nat),
            |c: Command| c is Start,
        );
        lemma_count_concat(
            spec_paths(target, (paths - 1) as nat),
            spec_starts(target, path, REPETITIONS as nat),
            |c: Command| c is Request,
        );
    }
}

/// The first `starts` container starts of a path.
proof fn lemma_starts_size(target: usize, path: usize, starts: nat)
    ensures
        starts_of(spec_starts(target, path, starts)) == starts,
        requests_of(spec_starts(target, path, starts)) == starts * FOLLOW_UP_REQUESTS,
    decreases starts,
{
    if starts > 0 {
        lemma_starts_size(target, path, (starts - 1) as nat);
        lemma_start_size(target, path);
        lemma_count_concat(
            spec_starts(target, path, (starts - 1) as nat),
            spec_start(target, path),
            |c: Command| c is Start,
        );
        lemma_count_concat(
            spec_starts(target, path, (starts - 1) as nat),
            spec_start(target, path),
            |c: Command| c is Request,
        );
    }
}

/// The name of the table of request latencies, within the directory of the
/// mode.
pub fn requests_table_name() -> (name: &'static str)
    ensures
        name@ == "request-benchmarks.csv"@,
{
    "request-benchmarks.csv"
}

/// The name of the table of start-up times, within the directory of the
/// mode.
pub fn start_times_table_name() -> (name: &'static str)
    ensures
        name@ == "start-time-benchmarks.csv"@,
{
    "start-time-benchmarks.csv"
}

} // verus!
