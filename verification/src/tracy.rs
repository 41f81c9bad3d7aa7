//! The decisions around launching the Tracy profiler: it is launched only when no instance is
//! running, and an instance counts as running when `pgrep` finds one.

use vstd::prelude::*;

verus! {

#[verifier::external_type_specification]
#[verifier::external_body]
pub struct ExIoError(std::io::Error);

/// Why the profiler was not launched.
#[derive(Debug)]
pub enum TracyError {
    /// Tracy profiler is already running, not launching a new instance
    AlreadyRunning,
    /// Starting the profiler process failed.
    LaunchFailed(std::io::Error),
    IoError(std::io::Error),
}

/// Whether a new profiler may be launched: not when one is already running.
pub fn launch_check(already_running: bool) -> (r: Result<(), TracyError>)
    ensures
        already_running <==> r matches Err(TracyError::AlreadyRunning),
        !already_running <==> r is Ok,
{
    if already_running {
        Err(TracyError::AlreadyRunning)
    } else {
        Ok(())
    }
}

/// Whether `pgrep -x tracy-profiler` found a running profiler: it succeeded and printed
/// something.
pub fn pgrep_found_profiler(exit_success: bool, stdout: &[u8]) -> (b: bool)
    ensures
        b == (exit_success && stdout@.len() > 0),
{
    exit_success && stdout.len() > 0
}

} // verus!
