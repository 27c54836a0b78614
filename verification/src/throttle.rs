//! Pacing: the pause that goes with the one search request of a run.

use vstd::prelude::*;
use crate::random::random_in;

verus! {

/// The shortest pause, in seconds.
pub const MIN_DELAY_SECS: u64 = 2;

/// The longest pause, in seconds.
pub const MAX_DELAY_SECS: u64 = 5;

/// The pause that a drawn number stands for: the number itself where it
/// lies within the bounds, else the nearer bound.
pub open spec fn delay_for(drawn: u64) -> u64 {
    if drawn < MIN_DELAY_SECS {
        MIN_DELAY_SECS
    } else if drawn > MAX_DELAY_SECS {
        MAX_DELAY_SECS
    } else {
        drawn
    }
}

/// Whatever was drawn, the pause lies within the bounds.
pub proof fn lemma_delay_within_bounds(drawn: u64)
    ensures
        MIN_DELAY_SECS <= delay_for(drawn) <= MAX_DELAY_SECS,
{
}

/// Turns a drawn number into the pause, in seconds.
pub fn delay_from(drawn: u64) -> (seconds: u64)
    ensures
        seconds == delay_for(drawn),
        MIN_DELAY_SECS <= seconds <= MAX_DELAY_SECS,
{
    if drawn < MIN_DELAY_SECS {
        MIN_DELAY_SECS
    } else if drawn > MAX_DELAY_SECS {
        MAX_DELAY_SECS
    } else {
        drawn
    }
}

/// Draws the pause for one search request, in seconds.
pub fn sample_delay() -> (seconds: u64)
    ensures
        MIN_DELAY_SECS <= seconds <= MAX_DELAY_SECS,
{
    delay_from(random_in(MIN_DELAY_SECS, MAX_DELAY_SECS))
}

} // verus!
