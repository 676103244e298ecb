//! How long the timers run.
use rand::Rng;
use vstd::prelude::*;

verus! {

/// The shortest election timeout, in milliseconds.
pub const ELECTION_TIMEOUT_START: u64 = 650;

/// The first duration that is too long for an election timeout, in milliseconds.
pub const ELECTION_TIMEOUT_END: u64 = 800;

/// The heartbeat interval, in milliseconds.
pub const HEARTBEAT_TIMEOUT: u64 = 300;

/// Draws a number with `rand::Rng::gen_range` from the generator of `rand::thread_rng`.
/// Trusted: the number is at least `low` and less than `high`. `gen_range` panics unless
/// `low < high`. Which number comes is left to chance.
#[verifier::external_body]
pub(crate) fn draw(low: u64, high: u64) -> (res: u64)
    requires
        low < high,
    ensures
        low <= res < high,
{
    rand::thread_rng().gen_range(low, high)
}

} // verus!
