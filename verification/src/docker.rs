//! The container runtime and the health probe: the arguments with which the
//! runtime is called for a target, and what its answers mean.

use crate::error::BenchError;
use crate::targets::TestTarget;
use crate::text::{decimal_text, push_decimal, push_text, texts};
use vstd::prelude::*;
use vstd::string::*;

verus! {

/// The RAM limit of a container, as the runtime takes it: megabytes, then `m`.
pub open spec fn spec_memory_arg(ram_mb: nat) -> Seq<char> {
    decimal_text(ram_mb) + "m"@
}

/// The arguments that start the container of `target`: its RAM as memory
/// limit and as limit of memory with swap, its CPUs, port 8080 published as
/// port 8080, its name, and its image.
pub open spec fn spec_start_args(target: TestTarget) -> Seq<Seq<char>> {
    seq![
        "run"@,
        "-m"@,
        spec_memory_arg(target.ram_mb as nat),
        "--memory-swap"@,
        spec_memory_arg(target.ram_mb as nat),
        "--cpus"@,
        decimal_text(target.num_cpus as nat),
        "-p"@,
        "8080:8080"@,
        "--name"@,
        target.spec_name(),
        target.spec_docker_target(),
    ]
}

/// The arguments that remove the container `name`, running or not.
pub open spec fn spec_remove_args(name: Seq<char>) -> Seq<Seq<char>> {
    seq!["rm"@, "-f"@, name]
}

/// The arguments that stop the container `name`.
pub open spec fn spec_stop_args(name: Seq<char>) -> Seq<Seq<char>> {
    seq!["stop"@, name]
}

/// The arguments with which the runtime starts the container of `target`.
pub fn start_args(target: &TestTarget) -> (args: Vec<String>)
    ensures
        texts(args@) == spec_start_args(*target),
{
    let mut memory = String::new();
    push_decimal(&mut memory, target.ram_mb as u128);
    memory.append("m");
    assert(memory@ =~= spec_memory_arg(target.ram_mb as nat));
    let mut cpus = String::new();
    push_decimal(&mut cpus, target.num_cpus as u128);
    assert(cpus@ =~= decimal_text(target.num_cpus as nat));
    let name = target.name();
    let image = target.docker_target();
    let mut args: Vec<String> = Vec::new();
    assert(texts(args@) =~= Seq::<Seq<char>>::empty());
    push_text(&mut args, "run");
    push_text(&mut args, "-m");
    push_text(&mut args, memory.as_str());
    push_text(&mut args, "--memory-swap");
    push_text(&mut args, memory.as_str());
    push_text(&mut args, "--cpus");
    push_text(&mut args, cpus.as_str());
    push_text(&mut args, "-p");
    push_text(&mut args, "8080:8080");
    push_text(&mut args, "--name");
    push_text(&mut args, name.as_str());
    push_text(&mut args, image.as_str());
    assert(texts(args@) =~= spec_start_args(*target));
    args
}

/// The arguments with which the runtime removes the container `name`,
/// running or not.
pub fn remove_args(name: &str) -> (args: Vec<String>)
    ensures
        texts(args@) == spec_remove_args(name@),
{
    let mut args: Vec<String> = Vec::new();
    assert(texts(args@) =~= Seq::<Seq<char>>::empty());
    push_text(&mut args, "rm");
    push_text(&mut args, "-f");
    push_text(&mut args, name);
    assert(texts(args@) =~= spec_remove_args(name@));
    args
}

/// The arguments with which the runtime stops the container `name`.
pub fn stop_args(name: &str) -> (args: Vec<String>)
    ensures
        texts(args@) == spec_stop_args(name@),
{
    let mut args: Vec<String> = Vec::new();
    assert(texts(args@) =~= Seq::<Seq<char>>::empty());
    push_text(&mut args, "stop");
    push_text(&mut args, name);
    assert(texts(args@) =~= spec_stop_args(name@));
    args
}

/// Judges the removal of a container before a start. Whatever the runtime
/// reported, the removal counts as done: that no container of the name was
/// there is no error, the first time or any time after.
pub fn removal_outcome(reported_success: bool) -> (r: Result<(), BenchError>)
    ensures
        r is Ok,
{
    Ok(())
}

/// Judges the stopping of a container: a failure status is an error that
/// carries the status as the runtime gave it; it is not tried again.
pub fn stop_outcome(reported_success: bool, status: &str) -> (r: Result<(), BenchError>)
    ensures
        reported_success ==> r is Ok,
        !reported_success ==> r is Err && r->Err_0 is StopFailed && r->Err_0->status@ == status@,
{
    if reported_success {
        Ok(())
    } else {
        Err(BenchError::StopFailed { status: status.to_owned() })
    }
}

/// The seconds that one probe of the health endpoint may take; a probe that
/// takes longer counts as not answered.
pub const PROBE_TIMEOUT_SECONDS: u64 = 1;

/// The address that is probed to learn whether the server is up.
pub fn health_url() -> (url: String)
    ensures
        url@ == "http://localhost:8080/strings/hello"@,
{
    "http://localhost:8080/strings/hello".to_owned()
}

/// A status code of the success class, 200 to 299.
pub open spec fn is_success_status(code: u16) -> bool {
    200 <= code <= 299
}

/// Judges one probe of the health endpoint: the server is healthy exactly
/// when an answer came and its status code is of the success class.
pub fn is_healthy(status: Option<u16>) -> (healthy: bool)
    ensures
        healthy == (status matches Some(code) && is_success_status(code)),
{
    match status {
        Some(code) => 200 <= code && code <= 299,
        None => false,
    }
}

} // verus!
