//! Frequencies, the spectral peak, and what the protocol reads from a tone.
//!
//! A frequency is held in whole millihertz. The transform of a stretch of
//! audio is made by the caller; the peak is picked here from the magnitudes
//! of its bins.

use vstd::arithmetic::div_mod::{
    lemma_div_is_ordered, lemma_div_multiples_vanish, lemma_div_pos_is_pos,
};
use vstd::prelude::*;

verus! {

/// Millihertz in a hertz.
pub const MILLIS_PER_HERTZ: u64 = 1000;

/// The tone that stands for black.
pub const BLACK_TONE: u64 = 1_500_000;

/// The tone that stands for white.
pub const WHITE_TONE: u64 = 2_300_000;

/// The leader tone of the calibration header.
pub const LEADER_TONE: u64 = 1_900_000;

/// The break tone of the calibration header, which also starts the
/// identification code.
pub const BREAK_TONE: u64 = 1_200_000;

/// How far a header tone may lie from its nominal frequency, exclusive.
pub const TONE_TOLERANCE: u64 = 50_000;

/// A bit of the identification code is one up to this frequency, zero above.
pub const BIT_THRESHOLD: u64 = 1_200_000;

/// A stretch that peaks above this frequency no longer lies in a sync pulse.
pub const SYNC_THRESHOLD: u64 = 1_350_000;

/// A frequency in whole millihertz.
#[derive(Debug, Clone, Copy, PartialEq, Eq, Structural)]
pub struct Frequency {
    pub millihertz: u64,
}

impl Frequency {
    /// The frequency of a whole number of hertz.
    pub fn from_hertz(hertz: u32) -> (freq: Frequency)
        ensures
            freq.millihertz == hertz * 1000,
    {
        Frequency { millihertz: (hertz as u64) * MILLIS_PER_HERTZ }
    }
}

/// The luminance of a tone: 1500 Hz is 0, 2300 Hz is 255, linear between
/// them and rounded down, and held at 0 and 255 outside.
pub open spec fn luminance(millihertz: int) -> int {
    let linear = (255 * (millihertz - BLACK_TONE)) / (WHITE_TONE - BLACK_TONE);
    if linear < 0 {
        0
    } else if linear > 255 {
        255
    } else {
        linear
    }
}

/// The luminance mapping never leaves the range of a byte, is 0 up to
/// 1500 Hz and 255 from 2300 Hz on.
pub proof fn lemma_luminance_clamped(millihertz: int)
    ensures
        0 <= luminance(millihertz) <= 255,
        millihertz <= BLACK_TONE ==> luminance(millihertz) == 0,
        millihertz >= WHITE_TONE ==> luminance(millihertz) == 255,
{
}

/// The luminance mapping is monotonic: a higher tone is never darker.
pub proof fn lemma_luminance_monotonic(lower: int, higher: int)
    requires
        lower <= higher,
    ensures
        luminance(lower) <= luminance(higher),
{
}

/// Between 1500 Hz and 2300 Hz the luminance is linear in the frequency:
/// 255 parts of the way from black to white, rounded down.
pub proof fn lemma_luminance_linear(millihertz: int)
    requires
        BLACK_TONE <= millihertz <= WHITE_TONE,
    ensures
        luminance(millihertz) == (255 * (millihertz - 1_500_000)) / 800_000,
        800_000 * luminance(millihertz) <= 255 * (millihertz - 1_500_000) < 800_000 * (luminance(
            millihertz,
        ) + 1),
{
}

/// Converts a tone into a luminance byte.
pub fn calc_lum(freq: Frequency) -> (lum: u8)
    ensures
        lum == luminance(freq.millihertz as int),
{
    if freq.millihertz <= BLACK_TONE {
        0
    } else if freq.millihertz >= WHITE_TONE {
        255
    } else {
        ((255 * (freq.millihertz - BLACK_TONE)) / (WHITE_TONE - BLACK_TONE)) as u8
    }
}

/// Whether a measured tone lies within 50 Hz of the nominal one, exclusive.
pub open spec fn tone_matches(millihertz: int, nominal: int) -> bool {
    nominal - TONE_TOLERANCE < millihertz < nominal + TONE_TOLERANCE
}

/// Whether a measured tone lies within 50 Hz of the nominal one.
pub fn is_tone(freq: Frequency, nominal: u64) -> (hit: bool)
    requires
        nominal <= u32::MAX,
    ensures
        hit == tone_matches(freq.millihertz as int, nominal as int),
{
    (nominal < TONE_TOLERANCE || freq.millihertz > nominal - TONE_TOLERANCE) && freq.millihertz
        < nominal + TONE_TOLERANCE
}

/// Index of the first bin that no other bin exceeds.
pub open spec fn first_max_index(spectrum: Seq<u32>) -> int
    decreases spectrum.len(),
{
    if spectrum.len() <= 1 {
        0
    } else {
        let earlier = first_max_index(spectrum.drop_last());
        if spectrum.last() > spectrum[earlier] {
            spectrum.len() - 1
        } else {
            earlier
        }
    }
}

/// The first maximum is a bin of the spectrum, no bin exceeds it, and every
/// bin before it is smaller.
pub proof fn lemma_first_max_index(spectrum: Seq<u32>)
    requires
        spectrum.len() > 0,
    ensures
        0 <= first_max_index(spectrum) < spectrum.len(),
        forall|j: int|
            0 <= j < spectrum.len() ==> #[trigger] spectrum[j] <= spectrum[first_max_index(
                spectrum,
            )],
        forall|j: int|
            0 <= j < first_max_index(spectrum) ==> #[trigger] spectrum[j] < spectrum[first_max_index(
                spectrum,
            )],
    decreases spectrum.len(),
{
    if spectrum.len() > 1 {
        let front = spectrum.drop_last();
        lemma_first_max_index(front);
        assert forall|j: int| 0 <= j < spectrum.len() - 1 implies spectrum[j] == front[j] by {}
    }
}

/// The peak of a magnitude spectrum, in millihertz.
///
/// The first maximal bin is refined by its neighbours (the bin itself where
/// it stands at an edge): with `top` the maximum, `before` and `after` its
/// neighbours, the peak lies `(after - before) / (after - before + top)` bins
/// beyond it. A bin is `sample_rate / window` hertz wide. The result is
/// rounded down to a millihertz, and is 0 where the refinement has no
/// positive value.
pub open spec fn peak_millihertz(spectrum: Seq<u32>, sample_rate: int, window: int) -> int {
    let bin = first_max_index(spectrum);
    let top = spectrum[bin] as int;
    let before = if bin == 0 {
        top
    } else {
        spectrum[bin - 1] as int
    };
    let after = if bin + 1 >= spectrum.len() {
        top
    } else {
        spectrum[bin + 1] as int
    };
    let span = after - before + top;
    let numerator = (bin * span + (after - before)) * (sample_rate * 1000);
    let denominator = span * window;
    if spectrum.len() == 0 || denominator <= 0 || numerator <= 0 {
        0
    } else {
        numerator / denominator
    }
}

proof fn lemma_peak_bounds(bin: int, span: int, delta: int, rate: int, window: int)
    requires
        0 <= bin,
        bin + 1 <= window,
        0 < span <= 0x2_0000_0000,
        delta <= span,
        0 < bin * span + delta,
        0 <= rate <= 0xffff_ffff_000,
        0 < window <= 0xffff_ffff,
    ensures
        0 < (bin * span + delta) * rate <= 0xffff_ffff * 0x2_0000_0000 * 0xffff_ffff_000 || rate
            == 0,
        0 < span * window <= 0x2_0000_0000 * 0xffff_ffff,
        0 <= ((bin * span + delta) * rate) / (span * window) <= rate,
{
    let bins = bin * span + delta;
    assert(bins <= window * span) by (nonlinear_arith)
        requires
            bins == bin * span + delta,
            delta <= span,
            bin + 1 <= window,
            0 < span,
    ;
    assert(window * span <= 0xffff_ffff * 0x2_0000_0000) by (nonlinear_arith)
        requires
            0 < window <= 0xffff_ffff,
            0 < span <= 0x2_0000_0000,
    ;
    assert(0 < span * window && span * window == window * span) by (nonlinear_arith)
        requires
            0 < window,
            0 < span,
    ;
    assert(bins * rate <= (span * window) * rate) by (nonlinear_arith)
        requires
            bins <= span * window,
            0 <= rate,
    ;
    assert(rate > 0 ==> 0 < bins * rate) by (nonlinear_arith)
        requires
            0 < bins,
            0 <= rate,
    ;
    assert((span * window) * rate <= 0xffff_ffff * 0x2_0000_0000 * 0xffff_ffff_000)
        by (nonlinear_arith)
        requires
            0 < span * window <= 0xffff_ffff * 0x2_0000_0000,
            0 <= rate <= 0xffff_ffff_000,
    ;
    assert(0 <= bins * rate) by (nonlinear_arith)
        requires
            0 < bins,
            0 <= rate,
    ;
    lemma_div_pos_is_pos(bins * rate, span * window);
    lemma_div_is_ordered(bins * rate, (span * window) * rate, span * window);
    lemma_div_multiples_vanish(rate, span * window);
}

/// Finds the peak frequency of a stretch of audio from the magnitudes of its
/// real transform: `window` samples have `window / 2 + 1` bins.
pub fn peak_fft_freq(spectrum: &[u32], sample_rate: u32, window: usize) -> (freq: Frequency)
    requires
        window <= u32::MAX,
        spectrum@.len() == window / 2 + 1,
    ensures
        freq.millihertz == peak_millihertz(spectrum@, sample_rate as int, window as int),
        freq.millihertz <= sample_rate * 1000,
{
    let len: usize = spectrum.len();
    let mut bin: usize = 0;
    let mut i: usize = 1;
    assert(spectrum@.subrange(0, 1).drop_last().len() == 0);
    while i < len
        invariant
            1 <= i <= len,
            len == spectrum@.len(),
            bin == first_max_index(spectrum@.subrange(0, i as int)),
            0 <= bin < i,
        decreases len - i,
    {
        proof {
            let next = spectrum@.subrange(0, i + 1);
            assert(next.drop_last() == spectrum@.subrange(0, i as int));
            assert(next.last() == spectrum@[i as int]);
        }
        if spectrum[i] > spectrum[bin] {
            bin = i;
        }
        i = i + 1;
    }
    proof {
        assert(spectrum@.subrange(0, len as int) == spectrum@);
        lemma_first_max_index(spectrum@);
    }
    let top: u32 = spectrum[bin];
    let before: u32 = if bin == 0 {
        top
    } else {
        spectrum[bin - 1]
    };
    let after: u32 = if bin + 1 >= len {
        top
    } else {
        spectrum[bin + 1]
    };
    let span: u64 = (after as u64) + (top as u64) - (before as u64);
    let rate: u64 = (sample_rate as u64) * MILLIS_PER_HERTZ;
    proof {
        assert((bin as int) * (span as int) >= 0) by (nonlinear_arith)
            requires
                bin >= 0,
                span >= 0,
        ;
        assert((bin as int) * (span as int) <= 0xffff_ffff * 0x2_0000_0000) by (nonlinear_arith)
            requires
                0 <= bin <= 0xffff_ffff,
                0 <= span <= 0x2_0000_0000,
        ;
    }
    let rise: u128 = (bin as u128) * (span as u128) + (after as u128);
    if span == 0 || window == 0 || rise <= (before as u128) {
        proof {
            let s = span as int;
            let w = window as int;
            let r = (bin as int) * s + (after as int - before as int);
            assert(s == 0 || w == 0 ==> s * w == 0) by (nonlinear_arith);
            assert(r <= 0 ==> r * (sample_rate as int * 1000) <= 0) by (nonlinear_arith)
                requires
                    sample_rate >= 0,
            ;
        }
        return Frequency { millihertz: 0 };
    }
    let bins: u128 = rise - (before as u128);
    proof {
        assert(bin + 1 <= window);
        lemma_peak_bounds(
            bin as int,
            span as int,
            after as int - before as int,
            rate as int,
            window as int,
        );
    }
    let numerator: u128 = bins * (rate as u128);
    let denominator: u128 = (span as u128) * (window as u128);
    if numerator == 0 {
        return Frequency { millihertz: 0 };
    }
    Frequency { millihertz: (numerator / denominator) as u64 }
}

} // verus!
