//! The single-connection load generator: how it is called, and what its exit
//! means.

use crate::error::BenchError;
use crate::paths::TestPath;
use crate::text::{decimal_text, push_decimal, push_text, texts};
use vstd::prelude::*;
use vstd::string::*;

verus! {

/// How a run of the load generator ended.
#[derive(Debug, Clone, Copy)]
pub struct ToolExit {
    /// Whether it reported success.
    pub success: bool,
    /// Its exit code, where it had one.
    pub code: Option<i32>,
}

/// The address at which the server under test answers for `path`.
pub open spec fn spec_target_url(path: Seq<char>) -> Seq<char> {
    "http://localhost:8080"@ + path
}

/// The arguments of a run of `seconds` seconds against `url`, with one thread
/// and one connection.
pub open spec fn spec_wrk_args(url: Seq<char>, seconds: nat) -> Seq<Seq<char>> {
    seq!["-t"@, "1"@, "-c"@, "1"@, "-d"@, decimal_text(seconds) + "s"@, url]
}

/// The address at which the server under test answers for `path`.
pub fn target_url(path: &TestPath) -> (url: String)
    ensures
        url@ == spec_target_url(path.path@),
{
    let mut url = String::new();
    url.append("http://localhost:8080");
    url.append(path.path.as_str());
    assert(url@ =~= spec_target_url(path.path@));
    url
}

/// The arguments with which the load generator runs for `seconds` seconds
/// against `url`, with one thread and one connection.
pub fn wrk_args(url: &str, seconds: u64) -> (args: Vec<String>)
    ensures
        texts(args@) == spec_wrk_args(url@, seconds as nat),
{
    let mut duration = String::new();
    push_decimal(&mut duration, seconds as u128);
    duration.append("s");
    assert(duration@ =~= decimal_text(seconds as nat) + "s"@);
    let mut args: Vec<String> = Vec::new();
    assert(texts(args@) =~= Seq::<Seq<char>>::empty());
    push_text(&mut args, "-t");
    push_text(&mut args, "1");
    push_text(&mut args, "-c");
    push_text(&mut args, "1");
    push_text(&mut args, "-d");
    push_text(&mut args, duration.as_str());
    push_text(&mut args, url);
    assert(texts(args@) =~= spec_wrk_args(url@, seconds as nat));
    args
}

/// Judges the exit of the load generator: a failure status is an error that
/// carries the exit code.
pub fn check_exit(exit: &ToolExit) -> (r: Result<(), BenchError>)
    ensures
        exit.success ==> r is Ok,
        !exit.success ==> r is Err && r->Err_0 == (BenchError::ToolFailed { code: exit.code }),
{
    if exit.success {
        Ok(())
    } else {
        Err(BenchError::ToolFailed { code: exit.code })
    }
}

} // verus!
