//! What the process does on SIGTERM or SIGINT.
use vstd::prelude::*;

verus! {

/// The response to a termination signal.
#[derive(Debug, Clone, Copy, PartialEq, Eq, Structural)]
pub struct SignalResponse {
    /// The process group to send SIGTERM to, written as the negative id
    /// that `kill` takes for a group.
    pub kill_target: Option<i32>,
    /// Whether the process exits.
    pub exit: bool,
}

/// With a session running (`active_pgid > 0`) its process group is sent
/// SIGTERM and the manager stays; with none (`0`) the manager exits.
pub fn signal_response(active_pgid: i32) -> (r: SignalResponse)
    ensures
        r.kill_target == (if active_pgid > 0 {
            Some((-active_pgid) as i32)
        } else {
            None::<i32>
        }),
        r.exit == (active_pgid == 0),
{
    let kill_target = if active_pgid > 0 {
        Some(-active_pgid)
    } else {
        None
    };
    SignalResponse { kill_target, exit: active_pgid == 0 }
}

} // verus!
