//! What the mobile bridge reports to the Java side.
use vstd::prelude::*;

verus! {

/// The status text for the Java side, by whether the daemon was started.
pub fn daemon_status(daemon_started: bool) -> (r: &'static str)
    ensures
        r@ == (if daemon_started {
            "daemon_running"@
        } else {
            "daemon_not_started"@
        }),
{
    if daemon_started {
        "daemon_running"
    } else {
        "daemon_not_started"
    }
}

} // verus!
