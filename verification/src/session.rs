//! When a terminal session counts as idle.
use vstd::prelude::*;

verus! {

/// How long, in milliseconds, a session must have been quiet to be idle.
pub const IDLE_AFTER_MS: u64 = 2000;

/// A session is idle when it has printed something, its last output time
/// is known (not 0), and more than two seconds have passed since then
/// (a clock that went backwards counts as no time passed).
pub open spec fn is_idle_spec(has_had_output: bool, last_output_ms: u64, now_ms: u64) -> bool {
    &&& has_had_output
    &&& last_output_ms != 0
    &&& (if now_ms >= last_output_ms {
        now_ms - last_output_ms
    } else {
        0
    }) > IDLE_AFTER_MS
}

/// Whether a session whose output was last seen at `last_output_ms` is idle
/// at time `now_ms`.
pub fn is_idle_at(has_had_output: bool, last_output_ms: u64, now_ms: u64) -> (r: bool)
    ensures
        r == is_idle_spec(has_had_output, last_output_ms, now_ms),
{
    if !has_had_output {
        return false;
    }
    if last_output_ms == 0 {
        return false;
    }
    now_ms.saturating_sub(last_output_ms) > IDLE_AFTER_MS
}

} // verus!
