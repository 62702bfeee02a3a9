//! Waiting for a probe of the login shell's `PATH` with a deadline.

use vstd::prelude::*;

verus! {

/// How long the probe may run, in milliseconds.
pub const WAIT_TIMEOUT_MS: u64 = 1000;

/// How long to sleep between two looks at the probe, in milliseconds.
pub const POLL_INTERVAL_MS: u64 = 10;

/// What to do at one look at the running probe.
#[derive(Clone, Copy, Debug, PartialEq, Eq, Structural)]
pub enum WaitDecision {
    /// It has exited: report its status and stop.
    ReportExit,
    /// It is still running past the deadline: kill it and stop.
    Kill,
    /// It is still running: sleep for `POLL_INTERVAL_MS` and look again.
    Sleep,
}

/// What to do at a look: report an exit, else kill past the deadline, else sleep.
pub open spec fn decide(exited: bool, past_deadline: bool) -> WaitDecision {
    if exited {
        WaitDecision::ReportExit
    } else if past_deadline {
        WaitDecision::Kill
    } else {
        WaitDecision::Sleep
    }
}

/// Decides what to do when the probe has `exited` (a failed check counts
/// as not exited) and the deadline is or is not `past`.
pub fn wait_decision(exited: bool, past_deadline: bool) -> (d: WaitDecision)
    ensures
        d == decide(exited, past_deadline),
{
    if exited {
        WaitDecision::ReportExit
    } else if past_deadline {
        WaitDecision::Kill
    } else {
        WaitDecision::Sleep
    }
}

/// The program and arguments of the probe: an interactive login `bash` that
/// prints its `PATH`.
pub fn path_probe_command() -> (r: (String, Vec<String>))
    ensures
        r.0@ == "bash"@,
        r.1@.map_values(|s: String| s@) == seq!["-l"@, "-i"@, "-c"@, "echo $PATH"@],
{
    let mut args: Vec<String> = Vec::new();
    args.push("-l".to_string());
    args.push("-i".to_string());
    args.push("-c".to_string());
    args.push("echo $PATH".to_string());
    assert(args@.map_values(|s: String| s@) =~= seq!["-l"@, "-i"@, "-c"@, "echo $PATH"@]);
    ("bash".to_string(), args)
}

/// A probe that has exited is never killed, however late it is; one that
/// runs is killed only past the deadline.
pub proof fn law_kill_only_running_late(exited: bool, past_deadline: bool)
    ensures
        exited ==> decide(exited, past_deadline) == WaitDecision::ReportExit,
        decide(exited, past_deadline) == WaitDecision::Kill ==> !exited && past_deadline,
{
}

} // verus!
