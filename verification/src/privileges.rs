//! Raising the limit on open files.
use vstd::prelude::*;

verus! {

/// The soft limit on open files to set: the hard one, where the soft one is
/// below it.
pub fn raised_nofile_limit(soft: u64, hard: u64) -> (r: Option<u64>)
    ensures
        r == (if soft < hard {
            Some(hard)
        } else {
            None
        }),
{
    if soft >= hard {
        None
    } else {
        Some(hard)
    }
}

/// The soft limit once the limit has been raised.
pub open spec fn soft_after(soft: u64, hard: u64) -> u64 {
    if soft < hard {
        hard
    } else {
        soft
    }
}

/// Raising a second time changes nothing.
pub proof fn law_raise_once(soft: u64, hard: u64)
    ensures
        soft_after(soft_after(soft, hard), hard) == soft_after(soft, hard),
        soft <= hard ==> soft_after(soft, hard) == hard,
{
}

} // verus!
