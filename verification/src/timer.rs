use vstd::prelude::*;

verus! {

/// Frequency in Hz of the hart's `time` counter.
pub const CLOCK_FREQ: usize = 12500000;

/// Microseconds per second.
pub const MICRO_PER_SEC: usize = 1_000_000;

/// The time in microseconds given by a reading `ticks` of the `time` counter.
pub fn get_time_us(ticks: usize) -> (us: usize)
    ensures
        us == ticks / (CLOCK_FREQ / MICRO_PER_SEC),
{
    ticks / (CLOCK_FREQ / MICRO_PER_SEC)
}

} // verus!
