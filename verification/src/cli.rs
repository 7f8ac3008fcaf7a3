//! What a run is asked to do: the targets, the modes, and the place of the
//! results.

use crate::error::BenchError;
use crate::targets::TestTarget;
use vstd::prelude::*;

verus! {

/// The RAM, in MB, that a target gets unless a mode says otherwise.
pub const RAM_MB: usize = 128;

/// Runs benchmarks for specified hello-world servers.
#[derive(Debug)]
pub struct Cli {
    /// The list of targets to benchmark, in the form "lang-framework".
    pub targets: Vec<String>,
    /// If specified, tests results with compression enabled.
    pub compress: bool,
    /// If specified, runs performance benchmarks for individual requests.
    pub perf: bool,
    /// If specified, runs load tests.
    pub load: bool,
    /// If specified, runs a warm-up benchmark.
    pub warm_up: bool,
    /// Where to write the output data.
    pub out_dir: String,
    /// The number of CPUs to run the image with.
    pub num_cpus: usize,
}

/// A benchmark mode.
#[derive(Debug, Clone, Copy, PartialEq, Eq, Structural)]
pub enum Mode {
    Single,
    Perf,
    Load,
    WarmUp,
}

impl Mode {
    /// The name of the directory, below the output directory, that holds the
    /// results of the mode.
    pub open spec fn spec_dir_name(self) -> Seq<char> {
        match self {
            Mode::Single => "single"@,
            Mode::Perf => "perf"@,
            Mode::Load => "load"@,
            Mode::WarmUp => "warm_up"@,
        }
    }

    /// The name of the directory, below the output directory, that holds the
    /// results of the mode.
    pub fn dir_name(&self) -> (name: &'static str)
        ensures
            name@ == self.spec_dir_name(),
    {
        match *self {
            Mode::Single => "single",
            Mode::Perf => "perf",
            Mode::Load => "load",
            Mode::WarmUp => "warm_up",
        }
    }
}

/// The modes that the flags ask for, in the order in which they run: the
/// performance sweep, the load test, the warm-up benchmark.
pub open spec fn spec_modes(perf: bool, load: bool, warm_up: bool) -> Seq<Mode> {
    (if perf {
        seq![Mode::Perf]
    } else {
        Seq::empty()
    }) + (if load {
        seq![Mode::Load]
    } else {
        Seq::empty()
    }) + (if warm_up {
        seq![Mode::WarmUp]
    } else {
        Seq::empty()
    })
}

impl Cli {
    /// The targets of the run, one for each server named, in the order in
    /// which they were named: each with 128 MB of RAM, the CPUs asked for,
    /// and compression as asked for.
    pub fn test_targets(&self) -> (targets: Vec<TestTarget<'_>>)
        ensures
            targets@.len() == self.targets@.len(),
            forall|i: int|
                0 <= i < targets@.len() ==> {
                    &&& (#[trigger] targets@[i]).server_name@ == self.targets@[i]@
                    &&& targets@[i].num_cpus == self.num_cpus
                    &&& targets@[i].ram_mb == RAM_MB
                    &&& targets@[i].is_compressed == self.compress
                },
    {
        let mut targets: Vec<TestTarget<'_>> = Vec::new();
        let mut i: usize = 0;
        while i < self.targets.len()
            invariant
                i <= self.targets.len(),
                targets@.len() == i,
                forall|k: int|
                    0 <= k < i ==> {
                        &&& (#[trigger] targets@[k]).server_name@ == self.targets@[k]@
                        &&& targets@[k].num_cpus == self.num_cpus
                        &&& targets@[k].ram_mb == RAM_MB
                        &&& targets@[k].is_compressed == self.compress
                    },
            decreases self.targets.len() - i,
        {
            targets.push(
                TestTarget {
                    server_name: self.targets[i].as_str(),
                    num_cpus: self.num_cpus,
                    ram_mb: RAM_MB,
                    is_compressed: self.compress,
                },
            );
            i += 1;
        }
        targets
    }

    /// The modes to run, in the order in which they run.
    pub fn modes(&self) -> (modes: Vec<Mode>)
        ensures
            modes@ == spec_modes(self.perf, self.load, self.warm_up),
    {
        let mut modes: Vec<Mode> = Vec::new();
        if self.perf {
            modes.push(Mode::Perf);
        }
        if self.load {
            modes.push(Mode::Load);
        }
        if self.warm_up {
            modes.push(Mode::WarmUp);
        }
        assert(modes@ =~= spec_modes(self.perf, self.load, self.warm_up));
        modes
    }
}

/// What is to be done about an output directory.
#[derive(Debug, Clone, Copy, PartialEq, Eq, Structural)]
pub enum OutDir {
    /// The directory is there.
    Ready,
    /// The directory is to be made, with the directories above it.
    Create,
}

/// Decides what is to be done about the output directory `out_dir`, given
/// whether something exists at that place and whether it is a directory. A
/// directory is used as it is; where nothing exists, the directory is made;
/// anything else at that place is an error that names the place.
pub fn prep_out_dir(out_dir: &str, is_dir: bool, exists: bool) -> (r: Result<OutDir, BenchError>)
    ensures
        is_dir ==> r == Ok::<OutDir, BenchError>(OutDir::Ready),
        !is_dir && !exists ==> r == Ok::<OutDir, BenchError>(OutDir::Create),
        !is_dir && exists ==> r is Err && r->Err_0 is OutDirNotDirectory && r->Err_0->out_dir@
            == out_dir@,
{
    if is_dir {
        Ok(OutDir::Ready)
    } else if exists {
        Err(BenchError::OutDirNotDirectory { out_dir: out_dir.to_owned() })
    } else {
        Ok(OutDir::Create)
    }
}

} // verus!
