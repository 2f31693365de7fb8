//! Round timing and the small decisions around a round.

use vstd::prelude::*;
use rand::Rng;

verus! {

/// `x` clamped to `[lo, hi]`.
pub open spec fn clamp(x: int, lo: int, hi: int) -> int {
    if x < lo {
        lo
    } else if x > hi {
        hi
    } else {
        x
    }
}

/// Seconds left before the epoch's solution window closes:
/// `max(0, last_hash_at + epoch_slot_duration - buffer_secs - now)`,
/// capped at `u64::MAX`.
pub fn remaining_budget(last_hash_at: i64, epoch_slot_duration: i64, buffer_secs: u64, now: i64) -> (r: u64)
    ensures
        r == clamp(last_hash_at + epoch_slot_duration - buffer_secs - now, 0, u64::MAX as int),
{
    let v: i128 = last_hash_at as i128 + epoch_slot_duration as i128 - buffer_secs as i128 - now as i128;
    if v <= 0 {
        0
    } else if v >= u64::MAX as i128 {
        u64::MAX
    } else {
        v as u64
    }
}

/// Seconds of buffer kept before the epoch ends when deciding on a reset.
pub const RESET_BUFFER_SECS: i64 = 5;

/// Whether the epoch that began at `last_reset_at` is (within the buffer)
/// over at ledger time `now`; each step saturates in `i64` as the ledger
/// computes it.
pub fn should_reset(last_reset_at: i64, epoch_duration: i64, now: i64) -> (r: bool)
    ensures
        r == (clamp(
            clamp(last_reset_at + epoch_duration, i64::MIN as int, i64::MAX as int) - RESET_BUFFER_SECS,
            i64::MIN as int,
            i64::MAX as int,
        ) <= now),
{
    let end: i128 = last_reset_at as i128 + epoch_duration as i128;
    let end: i128 = if end > i64::MAX as i128 {
        i64::MAX as i128
    } else if end < i64::MIN as i128 {
        i64::MIN as i128
    } else {
        end
    };
    let due: i128 = end - RESET_BUFFER_SECS as i128;
    let due: i128 = if due < i64::MIN as i128 {
        i64::MIN as i128
    } else {
        due
    };
    due <= now as i128
}

/// Whether the requested thread count exceeds the available cores, in which
/// case the caller warns.
pub fn check_num_cores(threads: u64, num_cores: u64) -> (r: bool)
    ensures
        r == (threads > num_cores),
{
    threads > num_cores
}

/// Relies on rand::Rng::gen_range from the thread-local generator: a value
/// in `[0, n)`; it panics on an empty range, so `n > 0`.
#[verifier::external_body]
fn random_below(n: usize) -> (r: usize)
    requires
        n > 0,
    ensures
        r < n,
{
    rand::thread_rng().gen_range(0..n)
}

/// Picks the reward-pool account to submit to, uniformly at random among
/// `bus_count` of them.
pub fn find_bus(bus_count: usize) -> (r: usize)
    requires
        bus_count > 0,
    ensures
        r < bus_count,
{
    random_below(bus_count)
}

} // verus!
