//! Durations and their length in samples.
//!
//! Every duration of the protocol is a whole number of nanoseconds, so the
//! tables hold integers and the length of a duration in samples is exact:
//! the product of duration and sample rate, divided by a thousand million,
//! rounded down.

use vstd::prelude::*;

verus! {

/// Nanoseconds in a second.
pub const NANOS_PER_SECOND: u64 = 1_000_000_000;

/// The longest duration a mode descriptor may hold, in nanoseconds.
pub const MAX_DURATION: u64 = 0x100_0000_0000;

/// Offset of the break tone from the search origin.
pub const BREAK_OFFSET: u64 = 300_000_000;

/// Offset of the second leader tone from the search origin.
pub const LEADER_OFFSET: u64 = 10_000_000 + BREAK_OFFSET;

/// Offset of the tone that starts the identification code.
pub const VIS_START_OFFSET: u64 = 300_000_000 + LEADER_OFFSET;

/// Length of the whole calibration header.
pub const HDR_SIZE: u64 = 30_000_000 + VIS_START_OFFSET;

/// Length of the stretch over which each header tone is measured.
pub const HDR_WINDOW_SIZE: u64 = 10_000_000;

/// Distance between two search origins.
pub const HDR_HOP: u64 = 2_000_000;

/// Length of one bit of the identification code.
pub const VIS_BIT_SIZE: u64 = 30_000_000;

/// Number of whole samples in `nanos` nanoseconds at `sample_rate` hertz.
pub open spec fn samples_in(nanos: int, sample_rate: int) -> int {
    (nanos * sample_rate) / 1_000_000_000
}

/// A duration of up to twice `MAX_DURATION` has fewer than 2^44 samples.
pub proof fn lemma_samples_in_bounds(nanos: int, sample_rate: int)
    requires
        0 <= nanos <= 2 * MAX_DURATION,
        0 <= sample_rate <= u32::MAX,
    ensures
        0 <= nanos * sample_rate <= 0x200_0000_0000 * 0xffff_ffff,
        0 <= samples_in(nanos, sample_rate) < 0x1000_0000_0000,
{
    assert(0 <= nanos * sample_rate <= 0x200_0000_0000 * 0xffff_ffff) by (nonlinear_arith)
        requires
            0 <= nanos <= 0x200_0000_0000,
            0 <= sample_rate <= 0xffff_ffff,
    ;
}

/// Number of whole samples in a duration.
pub fn samples_of(nanos: u64, sample_rate: u32) -> (count: u64)
    requires
        nanos <= 2 * MAX_DURATION,
    ensures
        count == samples_in(nanos as int, sample_rate as int),
        count < 0x1000_0000_0000,
{
    proof {
        lemma_samples_in_bounds(nanos as int, sample_rate as int);
    }
    let product: u128 = (nanos as u128) * (sample_rate as u128);
    (product / 1_000_000_000) as u64
}

} // verus!
