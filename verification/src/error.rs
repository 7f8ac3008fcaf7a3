//! The ways in which a benchmark run ends early. Every one of them is fatal:
//! the run stops at the first, and nothing is tried again.

use crate::text::{decimal_text, push_decimal};
use vstd::prelude::*;
use vstd::string::*;

verus! {

/// Why a run was given up.
#[derive(Debug)]
pub enum BenchError {
    /// The output directory exists and is no directory.
    OutDirNotDirectory { out_dir: String },
    /// The container did not become healthy within the probes allowed.
    HealthTimeout { probes: u64 },
    /// A command came in a phase of the container's life that does not admit
    /// it.
    OutOfOrder,
    /// Stopping the container ended with a failure status.
    StopFailed { status: String },
    /// The load generator ended with a failure status.
    ToolFailed { code: Option<i32> },
    /// The load generator's output held no latency line.
    MissingLatency,
    /// The load generator's output held no throughput line.
    MissingThroughput,
}

/// The decimal notation of a signed number.
pub open spec fn signed_text(n: int) -> Seq<char> {
    if n < 0 {
        "-"@ + decimal_text((-n) as nat)
    } else {
        decimal_text(n as nat)
    }
}

/// An exit code as the message of a tool failure shows it.
pub open spec fn code_text(code: Option<i32>) -> Seq<char> {
    match code {
        Some(c) => "Some("@ + signed_text(c as int) + ")"@,
        None => "None"@,
    }
}

impl BenchError {
    /// The message of this error.
    pub open spec fn spec_message(&self) -> Seq<char> {
        match *self {
            BenchError::OutDirNotDirectory { out_dir } => "out_dir "@ + out_dir@
                + " already exists, but is not a directory"@,
            BenchError::HealthTimeout { probes } => "Container was not healthy after "@
                + decimal_text(probes as nat) + " probes"@,
            BenchError::OutOfOrder => "Commands out of order"@,
            BenchError::StopFailed { status } => "Exited with status code "@ + status@,
            BenchError::ToolFailed { code } => "Failed to run wrk; code: "@ + code_text(code),
            BenchError::MissingLatency => "No latency line in the load generator's output"@,
            BenchError::MissingThroughput => "No throughput line in the load generator's output"@,
        }
    }

    /// A message for the operator that says what went wrong.
    pub fn message(&self) -> (text: String)
        ensures
            text@ == self.spec_message(),
    {
        let mut text = String::new();
        match self {
            BenchError::OutDirNotDirectory { out_dir } => {
                text.append("out_dir ");
                text.append(out_dir.as_str());
                text.append(" already exists, but is not a directory");
            },
            BenchError::HealthTimeout { probes } => {
                text.append("Container was not healthy after ");
                push_decimal(&mut text, *probes as u128);
                text.append(" probes");
            },
            BenchError::OutOfOrder => {
                text.append("Commands out of order");
            },
            BenchError::StopFailed { status } => {
                text.append("Exited with status code ");
                text.append(status.as_str());
            },
            BenchError::ToolFailed { code } => {
                text.append("Failed to run wrk; code: ");
                match code {
                    Some(c) => {
                        let ghost before = text@;
                        text.append("Some(");
                        if *c < 0 {
                            text.append("-");
                            push_decimal(&mut text, (-(*c as i64)) as u128);
                        } else {
                            push_decimal(&mut text, *c as u128);
                        }
                        text.append(")");
                        assert(text@ =~= before + code_text(*code));
                    },
                    None => {
                        text.append("None");
                    },
                }
            },
            BenchError::MissingLatency => {
                text.append("No latency line in the load generator's output");
            },
            BenchError::MissingThroughput => {
                text.append("No throughput line in the load generator's output");
            },
        }
        assert(text@ =~= self.spec_message());
        text
    }
}

} // verus!
