//! The life of a container under test, and the commands that a benchmark
//! mode gives while it lasts.
//!
//! ```text
//! Idle -> Deleting -> Starting -> HealthPolling -> Ready -> TearingDown -> Idle
//! ```
//!
//! A mode is a list of commands. The list is orderly when every command comes
//! in a phase that admits it: a container of the same name is removed before
//! each start, nothing is measured before the container has passed its health
//! gate, and a container is stopped before the next one is touched. A removal
//! may be repeated: removing what is not there does no harm.

use vstd::prelude::*;

verus! {

/// One step of a benchmark mode. Targets and paths are given by their place
/// in the run's list of targets and in the mode's list of paths.
#[derive(Debug, Clone, Copy, PartialEq, Eq, Structural)]
pub enum Command {
    /// Remove any container that has the target's name.
    Remove { target: usize },
    /// Start the target's container.
    Start { target: usize },
    /// Probe the health endpoint until it answers well.
    AwaitHealthy { target: usize },
    /// Request the path until it answers well, and time that answer.
    AwaitFirstResponse { target: usize, path: usize },
    /// Run the load generator against the path; with `record`, its summary
    /// becomes a row.
    Measure { target: usize, path: usize, seconds: u64, record: bool },
    /// Request the path once and time the answer.
    Request { target: usize, path: usize },
    /// Make the target's directory for load-test reports, or empty it.
    PrepareDir { target: usize },
    /// Run one iteration of the load test.
    LoadTest { target: usize, iteration: usize },
    /// Wait before going on.
    Pause { target: usize, seconds: u64 },
    /// Stop the target's container.
    Stop { target: usize },
    /// Write the warm-up tables of the target.
    WriteWarmUp { target: usize },
}

/// Where the controller stands, and for which target.
#[derive(Debug, Clone, Copy, PartialEq, Eq, Structural)]
pub enum Phase {
    /// No container of the run is up.
    Idle,
    /// A container of the target's name, if any, is being removed.
    Deleting(usize),
    /// The target's container is being started.
    Starting(usize),
    /// The target's container is up and has not answered well yet.
    HealthPolling(usize),
    /// The target's container has answered well; the mode does its work.
    Ready(usize),
    /// The target's container is being stopped.
    TearingDown(usize),
}

impl Command {
    /// The target that the command is about.
    pub open spec fn spec_target(self) -> usize {
        match self {
            Command::Remove { target } => target,
            Command::Start { target } => target,
            Command::AwaitHealthy { target } => target,
            Command::AwaitFirstResponse { target, .. } => target,
            Command::Measure { target, .. } => target,
            Command::Request { target, .. } => target,
            Command::PrepareDir { target } => target,
            Command::LoadTest { target, .. } => target,
            Command::Pause { target, .. } => target,
            Command::Stop { target } => target,
            Command::WriteWarmUp { target } => target,
        }
    }

    /// The command waits for the container to answer well, and is given
    /// again as long as it has not.
    pub open spec fn spec_is_gate(self) -> bool {
        self is AwaitHealthy || self is AwaitFirstResponse
    }

    /// The command is part of a mode's work on a container that is ready.
    pub open spec fn spec_is_work(self) -> bool {
        self is Measure || self is Request || self is PrepareDir || self is LoadTest
            || self is Pause
    }

    /// The path that the command is about, where it is about one.
    pub open spec fn spec_path(self) -> Option<usize> {
        match self {
            Command::AwaitFirstResponse { path, .. } => Some(path),
            Command::Measure { path, .. } => Some(path),
            Command::Request { path, .. } => Some(path),
            _ => None,
        }
    }

    /// The command is about one of the first `targets` targets and, where it
    /// is about a path, about one of the first `paths` paths.
    pub open spec fn within(self, targets: nat, paths: nat) -> bool {
        &&& self.spec_target() < targets
        &&& self.spec_path() matches Some(path) ==> path < paths
    }

    /// The command is a run of the load generator whose summary becomes a
    /// row.
    pub open spec fn is_recorded(self) -> bool {
        self matches Command::Measure { record, .. } && record
    }

    /// The target that the command is about.
    pub fn target(&self) -> (t: usize)
        ensures
            t == self.spec_target(),
    {
        match *self {
            Command::Remove { target } => target,
            Command::Start { target } => target,
            Command::AwaitHealthy { target } => target,
            Command::AwaitFirstResponse { target, .. } => target,
            Command::Measure { target, .. } => target,
            Command::Request { target, .. } => target,
            Command::PrepareDir { target } => target,
            Command::LoadTest { target, .. } => target,
            Command::Pause { target, .. } => target,
            Command::Stop { target } => target,
            Command::WriteWarmUp { target } => target,
        }
    }

    /// Tells whether the command waits for the container to answer well.
    pub fn is_gate(&self) -> (b: bool)
        ensures
            b == self.spec_is_gate(),
    {
        match *self {
            Command::AwaitHealthy { .. } => true,
            Command::AwaitFirstResponse { .. } => true,
            _ => false,
        }
    }
}

impl Phase {
    /// No container of the run is up, or the last one is being stopped.
    pub open spec fn spec_is_clear(self) -> bool {
        self is Idle || self is TearingDown
    }

    /// The target's container is up.
    pub open spec fn spec_is_up(self, target: usize) -> bool {
        self == Phase::HealthPolling(target) || self == Phase::Ready(target)
    }

    /// The phase that the controller enters when it takes up `cmd` in this
    /// phase, the work of this phase being done; nothing where this phase
    /// does not admit the command.
    pub open spec fn spec_enter(self, cmd: Command) -> Option<Phase> {
        let t = cmd.spec_target();
        match cmd {
            Command::Remove { .. } => if self.spec_is_clear() || self is Deleting {
                Some(Phase::Deleting(t))
            } else {
                None
            },
            Command::Start { .. } => if self == Phase::Deleting(t) {
                Some(Phase::Starting(t))
            } else {
                None
            },
            Command::AwaitHealthy { .. } | Command::AwaitFirstResponse { .. } => if self
                == Phase::Starting(t) {
                Some(Phase::HealthPolling(t))
            } else {
                None
            },
            Command::Stop { .. } => if self.spec_is_up(t) {
                Some(Phase::TearingDown(t))
            } else {
                None
            },
            Command::WriteWarmUp { .. } => if self.spec_is_clear() {
                Some(Phase::Idle)
            } else {
                None
            },
            _ => if self.spec_is_up(t) {
                Some(Phase::Ready(t))
            } else {
                None
            },
        }
    }

    /// Tells whether no container of the run is up, or the last one is being
    /// stopped.
    pub fn is_clear(&self) -> (b: bool)
        ensures
            b == self.spec_is_clear(),
    {
        match *self {
            Phase::Idle => true,
            Phase::TearingDown(_) => true,
            _ => false,
        }
    }

    /// Tells whether the target's container is up.
    pub fn is_up(&self, target: usize) -> (b: bool)
        ensures
            b == self.spec_is_up(target),
    {
        match *self {
            Phase::HealthPolling(t) => t == target,
            Phase::Ready(t) => t == target,
            _ => false,
        }
    }

    /// The phase that the controller enters when it takes up `cmd` in this
    /// phase; `None` where this phase does not admit the command.
    pub fn enter(&self, cmd: &Command) -> (next: Option<Phase>)
        ensures
            next == self.spec_enter(*cmd),
    {
        let t = cmd.target();
        match *cmd {
            Command::Remove { .. } => match *self {
                Phase::Idle | Phase::TearingDown(_) | Phase::Deleting(_) => Some(
                    Phase::Deleting(t),
                ),
                _ => None,
            },
            Command::Start { .. } => match *self {
                Phase::Deleting(d) => if d == t {
                    Some(Phase::Starting(t))
                } else {
                    None
                },
                _ => None,
            },
            Command::AwaitHealthy { .. } | Command::AwaitFirstResponse { .. } => match *self {
                Phase::Starting(d) => if d == t {
                    Some(Phase::HealthPolling(t))
                } else {
                    None
                },
                _ => None,
            },
            Command::Stop { .. } => if self.is_up(t) {
                Some(Phase::TearingDown(t))
            } else {
                None
            },
            Command::WriteWarmUp { .. } => if self.is_clear() {
                Some(Phase::Idle)
            } else {
                None
            },
            _ => if self.is_up(t) {
                Some(Phase::Ready(t))
            } else {
                None
            },
        }
    }
}

/// The phase in which the controller is after it has taken up the commands
/// of `plan`, one after the other, from `phase` on; nothing where one of them
/// came in a phase that does not admit it.
pub open spec fn follow(plan: Seq<Command>, phase: Phase) -> Option<Phase>
    decreases plan.len(),
{
    if plan.len() == 0 {
        Some(phase)
    } else {
        match follow(plan.drop_last(), phase) {
            Some(before) => before.spec_enter(plan.last()),
            None => None,
        }
    }
}

/// Every command of `plan` comes in a phase that admits it, from the idle
/// controller on, and the last leaves no container up.
pub open spec fn is_orderly(plan: Seq<Command>) -> bool {
    ends_clear(follow(plan, Phase::Idle))
}

/// Following two lists of commands, one after the other, is following the
/// first and then, from where that ended, the second.
pub proof fn lemma_follow_concat(a: Seq<Command>, b: Seq<Command>, phase: Phase)
    ensures
        follow(a + b, phase) == match follow(a, phase) {
            Some(middle) => follow(b, middle),
            None => None,
        },
    decreases b.len(),
{
    if b.len() == 0 {
        assert(a + b =~= a);
    } else {
        lemma_follow_concat(a, b.drop_last(), phase);
        assert((a + b).drop_last() =~= a + b.drop_last());
        assert((a + b).last() == b.last());
    }
}

/// Following one command is entering its phase.
pub proof fn lemma_follow_one(cmd: Command, phase: Phase)
    ensures
        follow(seq![cmd], phase) == phase.spec_enter(cmd),
{
    let one = seq![cmd];
    assert(one.drop_last() =~= Seq::<Command>::empty());
    assert(follow(Seq::<Command>::empty(), phase) == Some(phase));
}

/// Removing a container of the same name twice in a row is admitted, and
/// leaves the controller where one removal leaves it.
pub proof fn lemma_removal_twice(phase: Phase, target: usize)
    requires
        phase.spec_is_clear(),
    ensures
        follow(seq![Command::Remove { target }], phase) == Some(Phase::Deleting(target)),
        follow(seq![Command::Remove { target }, Command::Remove { target }], phase) == Some(
            Phase::Deleting(target),
        ),
{
    let once = seq![Command::Remove { target }];
    let twice = seq![Command::Remove { target }, Command::Remove { target }];
    lemma_follow_one(Command::Remove { target }, phase);
    assert(twice.drop_last() =~= once);
    assert(twice.last() == Command::Remove { target });
}

/// In an orderly list of commands, a container is started only directly
/// after the removal of any container of its name.
pub proof fn lemma_start_follows_removal(plan: Seq<Command>, i: int)
    requires
        is_orderly(plan),
        0 <= i < plan.len(),
        plan[i] is Start,
    ensures
        i > 0,
        plan[i - 1] == (Command::Remove { target: plan[i].spec_target() }),
{
    lemma_prefix_followed(plan, Phase::Idle, i + 1);
    let upto = plan.take(i + 1);
    assert(upto.last() == plan[i]);
    assert(upto.drop_last() =~= plan.take(i));
    let before = follow(plan.take(i), Phase::Idle).unwrap();
    assert(before == Phase::Deleting(plan[i].spec_target()));
    if i == 0 {
        assert(plan.take(0) =~= Seq::<Command>::empty());
    } else {
        let earlier = plan.take(i);
        assert(earlier.last() == plan[i - 1]);
        assert(earlier.drop_last() =~= plan.take(i - 1));
        lemma_prefix_followed(plan, Phase::Idle, i);
    }
}

/// In an orderly list of commands, work is done only on a container that is
/// up: one that was started, has been waited for, and has not been stopped.
pub proof fn lemma_work_needs_container(plan: Seq<Command>, i: int)
    requires
        is_orderly(plan),
        0 <= i < plan.len(),
        plan[i].spec_is_work(),
    ensures
        follow(plan.take(i), Phase::Idle) matches Some(before) && before.spec_is_up(
            plan[i].spec_target(),
        ),
{
    lemma_prefix_followed(plan, Phase::Idle, i + 1);
    let upto = plan.take(i + 1);
    assert(upto.last() == plan[i]);
    assert(upto.drop_last() =~= plan.take(i));
}

/// The commands before any place of a list that can be followed can be
/// followed.
pub proof fn lemma_prefix_followed(plan: Seq<Command>, phase: Phase, n: int)
    requires
        follow(plan, phase) is Some,
        0 <= n <= plan.len(),
    ensures
        follow(plan.take(n), phase) is Some,
    decreases plan.len() - n,
{
    if n == plan.len() {
        assert(plan.take(n) =~= plan);
    } else {
        lemma_prefix_followed(plan, phase, n + 1);
        let longer = plan.take(n + 1);
        assert(longer.drop_last() =~= plan.take(n));
    }
}

/// The commands of one life of the target's container: the removal of any
/// container of its name, the start, the health gate, the mode's work, and
/// the stop.
pub open spec fn session(target: usize, gate: Command, work: Seq<Command>) -> Seq<Command> {
    seq![Command::Remove { target }, Command::Start { target }, gate] + work + seq![
        Command::Stop { target },
    ]
}

/// Every command of `work` is work on the target's container.
pub open spec fn all_work_on(work: Seq<Command>, target: usize) -> bool {
    forall|i: int|
        0 <= i < work.len() ==> (#[trigger] work[i]).spec_is_work() && work[i].spec_target()
            == target
}

/// From every phase in which no container is up, the commands can be
/// followed, and they leave no container up.
pub open spec fn is_round(plan: Seq<Command>) -> bool {
    forall|phase: Phase| phase.spec_is_clear() ==> ends_clear(#[trigger] follow(plan, phase))
}

/// The commands could be followed and left no container up.
pub open spec fn ends_clear(end: Option<Phase>) -> bool {
    end matches Some(phase) && phase.spec_is_clear()
}

/// Work on a container that is up can be followed, and the container stays
/// up.
pub proof fn lemma_work_followed(work: Seq<Command>, target: usize, phase: Phase)
    requires
        all_work_on(work, target),
        phase.spec_is_up(target),
    ensures
        follow(work, phase) matches Some(end) && end.spec_is_up(target),
    decreases work.len(),
{
    if work.len() > 0 {
        assert(all_work_on(work.drop_last(), target)) by {
            assert forall|i: int| 0 <= i < work.drop_last().len() implies (
            #[trigger] work.drop_last()[i]).spec_is_work() && work.drop_last()[i].spec_target()
                == target by {
                assert(work.drop_last()[i] == work[i]);
            }
        }
        lemma_work_followed(work.drop_last(), target, phase);
        assert(work.last() == work[work.len() - 1]);
    }
}

/// One life of a container is a round.
pub proof fn lemma_session_is_round(target: usize, gate: Command, work: Seq<Command>)
    requires
        gate.spec_is_gate(),
        gate.spec_target() == target,
        all_work_on(work, target),
    ensures
        is_round(session(target, gate, work)),
{
    let head = seq![Command::Remove { target }, Command::Start { target }, gate];
    let tail = seq![Command::Stop { target }];
    assert forall|phase: Phase| phase.spec_is_clear() implies ends_clear(
        #[trigger] follow(session(target, gate, work), phase),
    ) by {
        let two = seq![Command::Remove { target }, Command::Start { target }];
        let one = seq![Command::Remove { target }];
        assert(head.drop_last() =~= two);
        assert(two.drop_last() =~= one);
        lemma_follow_one(Command::Remove { target }, phase);
        assert(follow(one, phase) == Some(Phase::Deleting(target)));
        assert(two.last() == Command::Start { target });
        assert(follow(two, phase) == Some(Phase::Starting(target)));
        assert(head.last() == gate);
        assert(follow(head, phase) == Some(Phase::HealthPolling(target)));
        lemma_work_followed(work, target, Phase::HealthPolling(target));
        lemma_follow_concat(head, work, phase);
        lemma_follow_concat(head + work, tail, phase);
        lemma_follow_one(Command::Stop { target }, follow(head + work, phase).unwrap());
    }
}

/// Two rounds, one after the other, are a round.
pub proof fn lemma_round_concat(a: Seq<Command>, b: Seq<Command>)
    requires
        is_round(a),
        is_round(b),
    ensures
        is_round(a + b),
{
    assert forall|phase: Phase| phase.spec_is_clear() implies ends_clear(
        #[trigger] follow(a + b, phase),
    ) by {
        lemma_follow_concat(a, b, phase);
        let middle = follow(a, phase).unwrap();
        assert(follow(b, middle) is Some);
    }
}

/// No command at all is a round, and so is the writing of the warm-up tables.
pub proof fn lemma_small_rounds(target: usize)
    ensures
        is_round(Seq::<Command>::empty()),
        is_round(seq![Command::WriteWarmUp { target }]),
{
    assert forall|phase: Phase| phase.spec_is_clear() implies ends_clear(
        #[trigger] follow(seq![Command::WriteWarmUp { target }], phase),
    ) by {
        lemma_follow_one(Command::WriteWarmUp { target }, phase);
    }
}

/// A round is orderly.
pub proof fn lemma_round_is_orderly(plan: Seq<Command>)
    requires
        is_round(plan),
    ensures
        is_orderly(plan),
{
    assert(follow(plan, Phase::Idle) is Some);
}

/// Appends the commands of one life of the target's container.
pub(crate) fn push_session(
    cmds: &mut Vec<Command>,
    target: usize,
    gate: Command,
    work: &Vec<Command>,
)
    ensures
        final(cmds)@ == old(cmds)@ + session(target, gate, work@),
{
    cmds.push(Command::Remove { target });
    cmds.push(Command::Start { target });
    cmds.push(gate);
    let ghost head = cmds@;
    let mut i: usize = 0;
    while i < work.len()
        invariant
            i <= work.len(),
            cmds@ == head + work@.take(i as int),
        decreases work.len() - i,
    {
        cmds.push(work[i]);
        assert(cmds@ =~= head + work@.take(i + 1));
        i += 1;
    }
    assert(work@.take(work@.len() as int) =~= work@);
    cmds.push(Command::Stop { target });
    assert(cmds@ =~= old(cmds)@ + session(target, gate, work@));
}

/// Every command of `plan` is about one of the first `targets` targets and,
/// where it is about a path, about one of the first `paths` paths.
pub open spec fn all_within(plan: Seq<Command>, targets: nat, paths: nat) -> bool {
    forall|i: int| 0 <= i < plan.len() ==> (#[trigger] plan[i]).within(targets, paths)
}

/// The number of commands of `plan` that `counted` holds of.
pub open spec fn count(plan: Seq<Command>, counted: spec_fn(Command) -> bool) -> nat
    decreases plan.len(),
{
    if plan.len() == 0 {
        0
    } else {
        count(plan.drop_last(), counted) + if counted(plan.last()) {
            1nat
        } else {
            0nat
        }
    }
}

/// The number of runs of the load generator in `plan` whose summary becomes
/// a row.
pub open spec fn rows_of(plan: Seq<Command>) -> nat {
    count(plan, |c: Command| c.is_recorded())
}

/// The number of container starts in `plan`.
pub open spec fn starts_of(plan: Seq<Command>) -> nat {
    count(plan, |c: Command| c is Start)
}

/// The number of timed requests in `plan`, those that wait for the first
/// good answer not counted.
pub open spec fn requests_of(plan: Seq<Command>) -> nat {
    count(plan, |c: Command| c is Request)
}

/// What is counted in two lists of commands, one after the other, is what is
/// counted in the first and in the second.
pub proof fn lemma_count_concat(a: Seq<Command>, b: Seq<Command>, counted: spec_fn(Command) -> bool)
    ensures
        count(a + b, counted) == count(a, counted) + count(b, counted),
    decreases b.len(),
{
    if b.len() == 0 {
        assert(a + b =~= a);
    } else {
        lemma_count_concat(a, b.drop_last(), counted);
        assert((a + b).drop_last() =~= a + b.drop_last());
        assert((a + b).last() == b.last());
    }
}

/// One life of a container holds what its work holds of the commands that
/// are counted, and beside that its start and its gate, where those are
/// counted. Neither `Remove` nor `Stop` may be among the commands counted.
pub proof fn lemma_count_session(
    target: usize,
    gate: Command,
    work: Seq<Command>,
    counted: spec_fn(Command) -> bool,
)
    requires
        !counted(Command::Remove { target }),
        !counted(Command::Stop { target }),
    ensures
        count(session(target, gate, work), counted) == count(work, counted) + (if counted(
            Command::Start { target },
        ) {
            1nat
        } else {
            0nat
        }) + (if counted(gate) {
            1nat
        } else {
            0nat
        }),
{
    let head = seq![Command::Remove { target }, Command::Start { target }, gate];
    let two = seq![Command::Remove { target }, Command::Start { target }];
    let one = seq![Command::Remove { target }];
    let tail = seq![Command::Stop { target }];
    assert(head.drop_last() =~= two);
    assert(two.drop_last() =~= one);
    assert(one.drop_last() =~= Seq::<Command>::empty());
    assert(tail.drop_last() =~= Seq::<Command>::empty());
    assert(count(Seq::<Command>::empty(), counted) == 0);
    assert(one.last() == Command::Remove { target });
    assert(count(one, counted) == 0);
    assert(two.last() == Command::Start { target });
    assert(count(two, counted) == if counted(Command::Start { target }) {
        1nat
    } else {
        0nat
    });
    assert(head.last() == gate);
    assert(count(head, counted) == count(two, counted) + if counted(gate) {
        1nat
    } else {
        0nat
    });
    assert(tail.last() == Command::Stop { target });
    assert(count(tail, counted) == 0);
    lemma_count_concat(head, work, counted);
    lemma_count_concat(head + work, tail, counted);
}

/// Two lists of commands within bounds, one after the other, are within
/// bounds.
pub proof fn lemma_within_concat(a: Seq<Command>, b: Seq<Command>, targets: nat, paths: nat)
    requires
        all_within(a, targets, paths),
        all_within(b, targets, paths),
    ensures
        all_within(a + b, targets, paths),
{
    assert forall|i: int| 0 <= i < (a + b).len() implies (#[trigger] (a + b)[i]).within(
        targets,
        paths,
    ) by {
        if i < a.len() {
            assert((a + b)[i] == a[i]);
        } else {
            assert((a + b)[i] == b[i - a.len()]);
        }
    }
}

/// One life of a container is within bounds where its gate and its work are.
pub proof fn lemma_session_within(
    target: usize,
    gate: Command,
    work: Seq<Command>,
    targets: nat,
    paths: nat,
)
    requires
        target < targets,
        gate.within(targets, paths),
        all_within(work, targets, paths),
    ensures
        all_within(session(target, gate, work), targets, paths),
{
    let head = seq![Command::Remove { target }, Command::Start { target }, gate];
    let tail = seq![Command::Stop { target }];
    assert(all_within(head, targets, paths));
    assert(all_within(tail, targets, paths));
    lemma_within_concat(head, work, targets, paths);
    lemma_within_concat(head + work, tail, targets, paths);
}

/// Commands within bounds stay within wider bounds.
pub proof fn lemma_within_more(plan: Seq<Command>, targets: nat, more: nat, paths: nat)
    requires
        all_within(plan, targets, paths),
        targets <= more,
    ensures
        all_within(plan, more, paths),
{
    assert forall|i: int| 0 <= i < plan.len() implies (#[trigger] plan[i]).within(more, paths) by {
        assert(plan[i].within(targets, paths));
    }
}

/// Tells whether a list of commands is orderly.
pub fn check_orderly(plan: &Vec<Command>) -> (ok: bool)
    ensures
        ok == is_orderly(plan@),
{
    let mut phase = Phase::Idle;
    let mut i: usize = 0;
    assert(plan@.take(0) =~= Seq::<Command>::empty());
    while i < plan.len()
        invariant
            i <= plan.len(),
            follow(plan@.take(i as int), Phase::Idle) == Some(phase),
        decreases plan.len() - i,
    {
        proof {
            let longer = plan@.take(i + 1);
            assert(longer.drop_last() =~= plan@.take(i as int));
            assert(longer.last() == plan@[i as int]);
        }
        match phase.enter(&plan[i]) {
            Some(next) => {
                phase = next;
            },
            None => {
                proof {
                    if follow(plan@, Phase::Idle) is Some {
                        lemma_prefix_followed(plan@, Phase::Idle, i + 1);
                    }
                }
                return false;
            },
        }
        i += 1;
    }
    assert(plan@.take(plan@.len() as int) =~= plan@);
    phase.is_clear()
}

} // verus!
