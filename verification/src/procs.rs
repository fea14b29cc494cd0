use vstd::prelude::*;
use crate::errors::Error;

verus! {

#[verifier::external_type_specification]
#[verifier::external_body]
pub struct ExSystem(sysinfo::System);

#[verifier::external_type_specification]
#[verifier::external_body]
pub struct ExProcess(sysinfo::Process);

#[verifier::external_type_specification]
#[verifier::external_body]
pub struct ExPid(sysinfo::Pid);

/// Relies on sysinfo::System::new_all: a snapshot of the process table.
/// What it holds is ambient OS state, so nothing is promised of it.
pub assume_specification[ sysinfo::System::new_all ]() -> sysinfo::System;

/// Relies on sysinfo::Pid::from_u32: wraps a platform process id number.
pub assume_specification[ sysinfo::Pid::from_u32 ](v: u32) -> sysinfo::Pid;

/// Relies on sysinfo::System::process: the snapshot's entry for the id, if
/// the process was alive when the snapshot was taken.
pub assume_specification<'a>[ sysinfo::System::process ](
    s: &'a sysinfo::System,
    pid: sysinfo::Pid,
) -> Option<&'a sysinfo::Process>;

/// Relies on sysinfo::Process::kill: delivers the kill signal and reports
/// whether it was sent; it does not wait for the process to exit.
pub assume_specification[ sysinfo::Process::kill ](p: &sysinfo::Process) -> bool;

/// Attempts the direct termination path: looks the process up in a fresh
/// snapshot of the process table and, when present, sends it the kill
/// signal. Returns whether the process was found there at all; a caller
/// that gets `false` must fall back to the external kill facility. The
/// result reflects live OS state, so no more can be said of it.
pub fn kill_via_process_table(pid: u32) -> bool {
    let s = sysinfo::System::new_all();
    match s.process(sysinfo::Pid::from_u32(pid)) {
        Option::Some(p) => {
            let _sent = p.kill();
            true
        },
        Option::None => false,
    }
}

/// The fire-and-forget termination verdict. Success is either path having
/// run: the process stood in the table and was signalled directly, or the
/// external kill facility could be invoked; only both failing is
/// `TerminateFailed`. Neither path waits for exit confirmation.
pub fn terminate_result(found_in_table: bool, fallback_invoked: bool) -> (r: Result<(), Error>)
    ensures
        r is Ok <==> (found_in_table || fallback_invoked),
        r is Err ==> r == Result::Err::<(), Error>(Error::TerminateFailed),
{
    if found_in_table || fallback_invoked {
        Result::Ok(())
    } else {
        Result::Err(Error::TerminateFailed)
    }
}

} // verus!
