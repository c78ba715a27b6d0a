//! Reachability probe policy: one primary target, one fallback, and zero
//! reported when both are unreachable.
use vstd::prelude::*;

verus! {

/// The latency to report given the outcome of the primary probe and, when
/// that failed, of the fallback probe: the primary's elapsed milliseconds,
/// else the fallback's, else zero.
pub open spec fn merged_latency(primary: Option<u64>, fallback: Option<u64>) -> u64 {
    match primary {
        Some(p) => p,
        None => match fallback {
            Some(f) => f,
            None => 0,
        },
    }
}

/// Merges the two probe outcomes into the reported latency.
pub fn latency_from_probes(primary: Option<u64>, fallback: Option<u64>) -> (r: u64)
    ensures
        r == merged_latency(primary, fallback),
{
    match primary {
        Some(p) => p,
        None => match fallback {
            Some(f) => f,
            None => 0,
        },
    }
}

/// When a successful probe reports a positive elapsed time, the merged
/// latency is zero exactly when both probes failed, and positive otherwise.
/// As a `u64` it can never be negative.
pub proof fn lemma_latency_zero_iff_unreachable(primary: Option<u64>, fallback: Option<u64>)
    requires
        primary matches Some(p) ==> p > 0,
        fallback matches Some(f) ==> f > 0,
    ensures
        merged_latency(primary, fallback) == 0 <==> (primary is None && fallback is None),
        merged_latency(primary, fallback) >= 0,
{
}

} // verus!
