//! The controller: what to watch, what to conclude, and when to look again.
pub mod fingerprint;
pub mod pass;
pub mod reconcile;
pub mod validate;
pub mod watch;

use vstd::prelude::*;

verus! {

/// The seconds until the next pass after one that applied changes. Where the
/// data plane is programmed and every route accepted, a slow safety net is
/// enough; otherwise the pass is repeated soon, so that a status written from a
/// cache that was behind heals.
pub fn success_requeue_secs(programmed: bool, all_routes_accepted: bool) -> (r: u64)
    ensures
        r == if programmed && all_routes_accepted {
            600u64
        } else {
            5u64
        },
{
    if programmed && all_routes_accepted {
        600
    } else {
        5
    }
}

/// The seconds until the next pass after one that had nothing to apply: there
/// is nothing to heal, so that it backs off.
pub fn skip_requeue_secs(programmed: bool, all_routes_accepted: bool) -> (r: u64)
    ensures
        r == if programmed && all_routes_accepted {
            600u64
        } else {
            60u64
        },
{
    if programmed && all_routes_accepted {
        600
    } else {
        60
    }
}

} // verus!
