//! Request timing shared by the memory buses.
//!
//! A bus holds a latency counter that starts at its configured delay. While a
//! request is held, every cycle with a non-zero counter stalls and counts
//! down; the cycle that finds the counter at zero serves the request and
//! reloads the counter. A cycle without a request reloads the counter.
use vstd::prelude::*;

verus! {

/// The latency counter after one cycle.
pub open spec fn next_latency(latency: u64, delay: u64, request: bool) -> u64 {
    if request && latency > 0 {
        (latency - 1) as u64
    } else {
        delay
    }
}

/// Whether a cycle serves the request.
pub open spec fn served(latency: u64, request: bool) -> bool {
    request && latency == 0
}

/// The latency counter after `n` cycles that all hold a request.
pub open spec fn latency_after_held(latency: u64, delay: u64, n: nat) -> u64
    decreases n,
{
    if n == 0 {
        latency
    } else {
        next_latency(latency_after_held(latency, delay, (n - 1) as nat), delay, true)
    }
}

/// A request held on an idle bus (counter at the delay) stalls for exactly
/// `delay` cycles, is served on the cycle after them, and leaves the bus idle
/// again.
pub proof fn lemma_held_request_served_after_delay(delay: u64)
    ensures
        forall|k: nat| k < delay ==> !served(#[trigger] latency_after_held(delay, delay, k), true),
        served(latency_after_held(delay, delay, delay as nat), true),
        next_latency(latency_after_held(delay, delay, delay as nat), delay, true) == delay,
{
    assert forall|k: nat| k <= delay implies #[trigger] latency_after_held(delay, delay, k)
        == delay - k by {
        lemma_countdown(delay, k);
    }
}

proof fn lemma_countdown(delay: u64, k: nat)
    requires
        k <= delay,
    ensures
        latency_after_held(delay, delay, k) == delay - k,
    decreases k,
{
    if k > 0 {
        lemma_countdown(delay, (k - 1) as nat);
    }
}

} // verus!
