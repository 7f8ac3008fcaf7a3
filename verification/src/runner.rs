//! Carries out a list of commands: says which command comes next, given how
//! the last one went.
//!
//! The caller performs each command and reports its outcome. A failure ends
//! the run at once; nothing is tried again, except that a health gate is
//! probed again until the container answers well, the probes allowed are
//! used up, or the time allowed for the wait is over.

use crate::error::BenchError;
use crate::lifecycle::{follow, is_orderly, lemma_prefix_followed, Command, Phase};
use vstd::prelude::*;

verus! {

/// How often a health gate is probed before the run is given up, unless the
/// caller sets another limit.
pub const PROBE_LIMIT: u64 = 10_000_000;

/// The milliseconds that a health gate waits for the container before the run
/// is given up, unless the caller sets another limit: two minutes.
pub const WAIT_LIMIT_MILLIS: u64 = 120_000;

/// How the command that was performed last went.
#[derive(Debug, Clone, Copy, PartialEq, Eq, Structural)]
pub enum Outcome {
    /// It was carried out.
    Succeeded,
    /// The container has not answered well yet; `waited_millis` is the time
    /// since the first probe of this health gate was sent.
    NotYet { waited_millis: u64 },
    /// It failed.
    Failed,
}

/// Why a run was ended early.
#[derive(Debug, Clone, Copy, PartialEq, Eq, Structural)]
pub enum AbortReason {
    /// A command failed.
    CommandFailed,
    /// The container did not answer well within the probes and the time
    /// allowed; `probes` is the number of probes that were made.
    HealthTimeout { probes: u64 },
    /// The next command came in a phase that does not admit it.
    OutOfOrder,
}

impl AbortReason {
    /// The error that the reason stands for. A failed command has none here:
    /// it brings its own.
    pub open spec fn spec_error(self) -> Option<BenchError> {
        match self {
            AbortReason::CommandFailed => None,
            AbortReason::HealthTimeout { probes } => Some(BenchError::HealthTimeout { probes }),
            AbortReason::OutOfOrder => Some(BenchError::OutOfOrder),
        }
    }

    /// The error with which a run that ended for this reason ends, unless a
    /// command failed: then the run ends with the error of that command.
    pub fn error(&self) -> (e: Option<BenchError>)
        ensures
            e == self.spec_error(),
    {
        match *self {
            AbortReason::CommandFailed => None,
            AbortReason::HealthTimeout { probes } => Some(BenchError::HealthTimeout { probes }),
            AbortReason::OutOfOrder => Some(BenchError::OutOfOrder),
        }
    }
}

/// What the caller is to do next.
#[derive(Debug, Clone, Copy, PartialEq, Eq, Structural)]
pub enum Directive {
    /// Perform the command and report its outcome.
    Perform(Command),
    /// All commands have been carried out.
    Finish,
    /// The run has ended early.
    Abort(AbortReason),
}

/// Where a run stands.
#[derive(Debug, Clone, Copy, PartialEq, Eq, Structural)]
pub enum Status {
    /// No command has been given yet.
    Waiting,
    /// The command at the current position is being performed.
    Running,
    /// All commands have been carried out.
    Finished,
    /// The run has ended early.
    Aborted(AbortReason),
}

/// The state of a run.
pub struct RunState {
    /// The commands of the run.
    pub plan: Seq<Command>,
    /// The place in `plan` of the command that is being performed.
    pub position: nat,
    /// The phase of the controller.
    pub phase: Phase,
    /// How often the health gate at `position` has been probed without a
    /// good answer.
    pub probes: nat,
    /// How often a health gate may be probed. A gate is probed once in any
    /// case.
    pub probe_limit: nat,
    /// The milliseconds that a health gate may wait for the container.
    pub wait_limit: nat,
    /// Where the run stands.
    pub status: Status,
}

impl RunState {
    /// The state is one that a run from the idle controller can reach.
    pub open spec fn wf(self) -> bool {
        match self.status {
            Status::Waiting => self.position == 0 && self.phase == Phase::Idle && self.probes == 0,
            Status::Running => {
                &&& self.position < self.plan.len()
                &&& follow(self.plan.take(self.position as int + 1), Phase::Idle) == Some(
                    self.phase,
                )
                &&& self.probes == 0 || self.probes < self.probe_limit
                &&& self.probes > 0 ==> self.plan[self.position as int].spec_is_gate()
            },
            Status::Finished => self.position == self.plan.len(),
            Status::Aborted(_) => true,
        }
    }

    /// The command that is being performed is a health gate.
    pub open spec fn at_gate(self) -> bool {
        self.plan[self.position as int].spec_is_gate()
    }

    /// The state in which the command at position `i` is taken up, and the
    /// directive for it; where no command is left, the run is finished, and
    /// where the phase does not admit the command, the run ends early.
    pub open spec fn take_up(self, i: nat) -> (RunState, Directive) {
        if i >= self.plan.len() {
            (
                RunState {
                    position: self.plan.len(),
                    phase: Phase::Idle,
                    probes: 0,
                    status: Status::Finished,
                    ..self
                },
                Directive::Finish,
            )
        } else {
            match self.phase.spec_enter(self.plan[i as int]) {
                Some(phase) => (
                    RunState { position: i, phase, probes: 0, status: Status::Running, ..self },
                    Directive::Perform(self.plan[i as int]),
                ),
                None => (
                    RunState { status: Status::Aborted(AbortReason::OutOfOrder), ..self },
                    Directive::Abort(AbortReason::OutOfOrder),
                ),
            }
        }
    }

    /// The state in which the run has ended early, and the directive that
    /// says so.
    pub open spec fn give_up(self, reason: AbortReason) -> (RunState, Directive) {
        (RunState { status: Status::Aborted(reason), ..self }, Directive::Abort(reason))
    }

    /// The next state and the next directive, given the outcome of the
    /// command that was performed last.
    ///
    /// Before the first command the outcome does not count. After a success
    /// the next command is taken up. A health gate that has not been passed
    /// is given again, unless it has been probed as often as is allowed or
    /// has waited as long as is allowed: then the run ends with the number
    /// of probes made. Any failure ends the run, and so does `NotYet` for a
    /// command that is no health gate. A run that is over stays over.
    pub open spec fn next(self, outcome: Outcome) -> (RunState, Directive) {
        match self.status {
            Status::Waiting => self.take_up(0),
            Status::Finished => (self, Directive::Finish),
            Status::Aborted(reason) => (self, Directive::Abort(reason)),
            Status::Running => match outcome {
                Outcome::Succeeded => self.take_up(self.position + 1),
                Outcome::Failed => self.give_up(AbortReason::CommandFailed),
                Outcome::NotYet { waited_millis } => if !self.at_gate() {
                    self.give_up(AbortReason::CommandFailed)
                } else if self.probes + 1 >= self.probe_limit || waited_millis
                    >= self.wait_limit {
                    self.give_up(AbortReason::HealthTimeout { probes: (self.probes + 1) as u64 })
                } else {
                    (
                        RunState { probes: self.probes + 1, ..self },
                        Directive::Perform(self.plan[self.position as int]),
                    )
                },
            },
        }
    }

    /// The run is over.
    pub open spec fn is_over(self) -> bool {
        self.status is Finished || self.status is Aborted
    }

    /// An upper bound of the directives that are still to come before the
    /// run is over.
    pub open spec fn effort(self) -> nat {
        let per_command = self.probe_limit + 2;
        match self.status {
            Status::Waiting => self.plan.len() * per_command + 1,
            Status::Running => ((self.plan.len() - self.position) * per_command
                - self.probes) as nat,
            Status::Finished => 0,
            Status::Aborted(_) => 0,
        }
    }
}

/// What changes in the course of a run.
#[derive(Clone, Copy)]
struct Cursor {
    position: usize,
    phase: Phase,
    probes: u64,
    status: Status,
}

/// Carries out a list of commands.
pub struct Runner {
    plan: Vec<Command>,
    probe_limit: u64,
    wait_limit: u64,
    cursor: Cursor,
}

impl View for Runner {
    type V = RunState;

    closed spec fn view(&self) -> RunState {
        RunState {
            plan: self.plan@,
            position: self.cursor.position as nat,
            phase: self.cursor.phase,
            probes: self.cursor.probes as nat,
            probe_limit: self.probe_limit as nat,
            wait_limit: self.wait_limit as nat,
            status: self.cursor.status,
        }
    }
}

impl Runner {
    #[verifier::type_invariant]
    spec fn inv(self) -> bool {
        self@.wf()
    }

    /// A run of `plan` that has not begun. A health gate is probed at least
    /// once; it is probed again as long as fewer than `probe_limit` probes
    /// have been made and the wait has lasted less than `wait_limit_millis`
    /// milliseconds.
    pub fn new(plan: Vec<Command>, probe_limit: u64, wait_limit_millis: u64) -> (runner: Runner)
        ensures
            runner@ == (RunState {
                plan: plan@,
                position: 0,
                phase: Phase::Idle,
                probes: 0,
                probe_limit: probe_limit as nat,
                wait_limit: wait_limit_millis as nat,
                status: Status::Waiting,
            }),
            runner@.wf(),
    {
        Runner {
            plan,
            probe_limit,
            wait_limit: wait_limit_millis,
            cursor: Cursor { position: 0, phase: Phase::Idle, probes: 0, status: Status::Waiting },
        }
    }

    /// The phase of the controller.
    pub fn phase(&self) -> (phase: Phase)
        ensures
            phase == self@.phase,
    {
        self.cursor.phase
    }

    /// Where the run stands.
    pub fn status(&self) -> (status: Status)
        ensures
            status == self@.status,
    {
        self.cursor.status
    }

    /// The place in the plan of the command that is being performed.
    pub fn position(&self) -> (position: usize)
        ensures
            position == self@.position,
    {
        self.cursor.position
    }

    /// Takes up the command at position `i`.
    fn take_up(&mut self, i: usize) -> (directive: Directive)
        requires
            i <= old(self).plan@.len(),
            follow(old(self).plan@.take(i as int), Phase::Idle) == Some(old(self).cursor.phase),
        ensures
            (final(self)@, directive) == old(self)@.take_up(i as nat),
            final(self)@.wf(),
    {
        let len = self.plan.len();
        if i >= len {
            self.cursor = Cursor {
                position: len,
                phase: Phase::Idle,
                probes: 0,
                status: Status::Finished,
            };
            return Directive::Finish;
        }
        let cmd = self.plan[i];
        proof {
            let longer = self.plan@.take(i + 1);
            assert(longer.drop_last() =~= self.plan@.take(i as int));
            assert(longer.last() == cmd);
        }
        match self.cursor.phase.enter(&cmd) {
            Some(phase) => {
                self.cursor = Cursor { position: i, phase, probes: 0, status: Status::Running };
                Directive::Perform(cmd)
            },
            None => {
                self.cursor = Cursor {
                    status: Status::Aborted(AbortReason::OutOfOrder),
                    ..self.cursor
                };
                Directive::Abort(AbortReason::OutOfOrder)
            },
        }
    }

    /// Ends the run early.
    fn give_up(&mut self, reason: AbortReason) -> (directive: Directive)
        ensures
            (final(self)@, directive) == old(self)@.give_up(reason),
            final(self)@.wf(),
    {
        self.cursor = Cursor { status: Status::Aborted(reason), ..self.cursor };
        Directive::Abort(reason)
    }

    /// Says what is to be done next, given the outcome of the command that
    /// was performed last; before the first command the outcome does not
    /// count.
    pub fn step(&mut self, outcome: Outcome) -> (directive: Directive)
        ensures
            old(self)@.wf(),
            (final(self)@, directive) == old(self)@.next(outcome),
            final(self)@.wf(),
    {
        proof {
            use_type_invariant(&*self);
        }
        let len = self.plan.len();
        match self.cursor.status {
            Status::Waiting => {
                assert(self.plan@.take(0) =~= Seq::<Command>::empty());
                self.take_up(0)
            },
            Status::Finished => Directive::Finish,
            Status::Aborted(reason) => Directive::Abort(reason),
            Status::Running => {
                let cmd = self.plan[self.cursor.position];
                match outcome {
                    Outcome::Succeeded => {
                        let i = self.cursor.position + 1;
                        self.take_up(i)
                    },
                    Outcome::Failed => self.give_up(AbortReason::CommandFailed),
                    Outcome::NotYet { waited_millis } => {
                        if !cmd.is_gate() {
                            self.give_up(AbortReason::CommandFailed)
                        } else if self.probe_limit <= 1 || self.cursor.probes >= self.probe_limit
                            - 1 || waited_millis >= self.wait_limit {
                            let probes = self.cursor.probes + 1;
                            self.give_up(AbortReason::HealthTimeout { probes })
                        } else {
                            self.cursor = Cursor { probes: self.cursor.probes + 1, ..self.cursor };
                            Directive::Perform(cmd)
                        }
                    },
                }
            },
        }
    }
}

/// A run of an orderly list of commands never ends for a command out of
/// order.
pub proof fn lemma_orderly_run_stays_in_order(state: RunState, outcome: Outcome)
    requires
        state.wf(),
        is_orderly(state.plan),
        state.status != Status::Aborted(AbortReason::OutOfOrder),
    ensures
        state.next(outcome).1 != Directive::Abort(AbortReason::OutOfOrder),
        state.next(outcome).0.status != Status::Aborted(AbortReason::OutOfOrder),
{
    let plan = state.plan;
    match state.status {
        Status::Waiting => {
            if plan.len() > 0 {
                lemma_prefix_followed(plan, Phase::Idle, 1);
                let first = plan.take(1);
                assert(first.drop_last() =~= Seq::<Command>::empty());
                assert(first.last() == plan[0]);
                assert(follow(Seq::<Command>::empty(), Phase::Idle) == Some(Phase::Idle));
                assert(follow(first, Phase::Idle) == Phase::Idle.spec_enter(plan[0]));
            }
        },
        Status::Running => {
            let i = state.position as int + 1;
            if i < plan.len() {
                lemma_prefix_followed(plan, Phase::Idle, i + 1);
                let longer = plan.take(i + 1);
                assert(longer.drop_last() =~= plan.take(i as int));
                assert(longer.last() == plan[i as int]);
            }
        },
        _ => {},
    }
}

/// After a failure the run is over, and once it is over, it stays as it is:
/// no further command is given, whatever is reported.
pub proof fn lemma_failure_is_final(state: RunState, later: Outcome)
    requires
        state.status is Running,
    ensures
        state.next(Outcome::Failed).1 == Directive::Abort(AbortReason::CommandFailed),
        state.next(Outcome::Failed).0.next(later) == (
            state.next(Outcome::Failed).0,
            Directive::Abort(AbortReason::CommandFailed),
        ),
{
}

/// The wait at a health gate is capped. A gate that has waited as long as is
/// allowed, or has been probed as often as is allowed, is not probed again:
/// the run ends with the number of probes made. Otherwise it is probed once
/// more. Every gate is probed at least once, and where the limit of
/// probes is one or more, no gate is probed more often than that.
pub proof fn lemma_wait_is_capped(state: RunState, waited_millis: u64)
    requires
        state.wf(),
        state.status is Running,
        state.at_gate(),
    ensures
        waited_millis >= state.wait_limit || state.probes + 1 >= state.probe_limit
            ==> state.next(Outcome::NotYet { waited_millis }).1 == Directive::Abort(
            AbortReason::HealthTimeout { probes: (state.probes + 1) as u64 },
        ),
        waited_millis < state.wait_limit && state.probes + 1 < state.probe_limit ==> {
            &&& state.next(Outcome::NotYet { waited_millis }).1 == Directive::Perform(
                state.plan[state.position as int],
            )
            &&& state.next(Outcome::NotYet { waited_millis }).0.probes == state.probes + 1
        },
        state.probe_limit >= 1 ==> state.probes + 1 <= state.probe_limit,
{
}

/// Commands are given in the order of the plan: after a success, the next
/// directive is the command that follows, or the end of the run.
pub proof fn lemma_commands_in_order(state: RunState)
    requires
        state.wf(),
        state.status is Running,
        is_orderly(state.plan),
    ensures
        state.position + 1 < state.plan.len() ==> state.next(Outcome::Succeeded).1
            == Directive::Perform(state.plan[state.position as int + 1]),
        state.position + 1 == state.plan.len() ==> state.next(Outcome::Succeeded).1
            == Directive::Finish,
{
    lemma_orderly_run_stays_in_order(state, Outcome::Succeeded);
}

/// Every directive brings the run nearer to its end: as long as the run is
/// not over, the effort that is left goes down with each step. So every run
/// ends, also when the container never answers well.
pub proof fn lemma_run_ends(state: RunState, outcome: Outcome)
    requires
        state.wf(),
        !state.is_over(),
    ensures
        state.next(outcome).0.effort() < state.effort(),
{
    let per_command = state.probe_limit + 2;
    let len = state.plan.len();
    let after = state.next(outcome).0;
    match state.status {
        Status::Waiting => {
            if after.status is Running {
                assert(after.position == 0 && after.probes == 0);
            }
        },
        Status::Running => {
            let left = len - state.position;
            assert(left >= 1);
            assert(left * per_command >= per_command) by (nonlinear_arith)
                requires
                    left >= 1,
                    per_command >= 0,
            ;
            assert(state.effort() >= 1);
            if after.status is Running {
                if after.position == state.position {
                    assert(after.probes == state.probes + 1);
                } else {
                    assert(after.position == state.position + 1);
                    assert((left - 1) * per_command == left * per_command - per_command)
                        by (nonlinear_arith);
                }
            }
        },
        _ => {},
    }
}

} // verus!
