//! The search for the calibration header and the reading of the code that
//! follows it.
//!
//! The header is a leader tone, a break, a second leader and the tone that
//! starts the identification code. The search tries one origin after
//! another, a fixed hop apart, and at each origin one tone after another; the
//! first origin at which all four tones match is taken. Every origin at which
//! the header lies within the samples is tried. Eight bits follow the header,
//! each read from one stretch; where the samples end before the eighth bit
//! does, the code is cut short.

use crate::freq::{is_tone, tone_matches, Frequency, BIT_THRESHOLD, BREAK_TONE, LEADER_TONE};
use crate::modes::catalog;
use crate::timing::{
    samples_in, samples_of, BREAK_OFFSET, HDR_HOP, HDR_SIZE, HDR_WINDOW_SIZE, LEADER_OFFSET,
    VIS_BIT_SIZE, VIS_START_OFFSET,
};
use crate::vis::{read_vis, vis_outcome, DecodeError};
use vstd::prelude::*;

verus! {

/// What the locator is doing.
#[derive(Debug, Clone, Copy, PartialEq, Eq, Structural)]
pub enum LocatorStage {
    /// Checking a tone of the header at some origin.
    Header,
    /// Reading a bit of the identification code.
    Vis,
    /// The mode is known.
    Ready,
    /// The recording cannot be decoded.
    Failed,
}

/// The locator: the origin and the tone under test, then the end of the
/// header and the bits read so far, then the code or the reason of failure.
#[derive(Debug, Clone)]
pub struct Locator {
    pub stage: LocatorStage,
    pub origin: usize,
    pub tone: u8,
    pub header_end: usize,
    pub bits: Vec<bool>,
    pub code: usize,
    pub error: DecodeError,
}

/// The mathematical content of a locator.
pub struct LocatorView {
    pub stage: LocatorStage,
    pub origin: int,
    pub tone: int,
    pub header_end: int,
    pub bits: Seq<bool>,
    pub code: int,
    pub error: DecodeError,
}

impl View for Locator {
    type V = LocatorView;

    open spec fn view(&self) -> LocatorView {
        LocatorView {
            stage: self.stage,
            origin: self.origin as int,
            tone: self.tone as int,
            header_end: self.header_end as int,
            bits: self.bits@,
            code: self.code as int,
            error: self.error,
        }
    }
}

/// Length of the header in samples.
pub open spec fn header_samples(rate: int) -> int {
    samples_in(HDR_SIZE as int, rate)
}

/// Length of one bit of the code in samples.
pub open spec fn bit_samples(rate: int) -> int {
    samples_in(VIS_BIT_SIZE as int, rate)
}

/// Whether a header that starts at `origin` lies within the samples.
pub open spec fn origin_fits(origin: int, rate: int, len: int) -> bool {
    origin + header_samples(rate) <= len
}

/// Whether the eight bits after a header that ends at `header_end` lie
/// within the samples.
pub open spec fn code_fits(header_end: int, rate: int, len: int) -> bool {
    header_end + 8 * bit_samples(rate) <= len
}

/// Where a tone of the header is measured, counted from the origin.
pub open spec fn tone_offset(tone: int) -> int {
    if tone == 0 {
        0
    } else if tone == 1 {
        BREAK_OFFSET as int
    } else if tone == 2 {
        LEADER_OFFSET as int
    } else {
        VIS_START_OFFSET as int
    }
}

/// The frequency that a tone of the header should have.
pub open spec fn tone_nominal(tone: int) -> int {
    if tone == 0 || tone == 2 {
        LEADER_TONE as int
    } else {
        BREAK_TONE as int
    }
}

/// The locator before anything is measured.
pub open spec fn first_locator(rate: int, len: int) -> LocatorView {
    LocatorView {
        stage: if origin_fits(0, rate, len) {
            LocatorStage::Header
        } else {
            LocatorStage::Failed
        },
        origin: 0,
        tone: 0,
        header_end: 0,
        bits: Seq::empty(),
        code: 0,
        error: DecodeError::HeaderNotFound,
    }
}

/// The locator after one measurement.
pub open spec fn next_locator(rate: int, len: int, s: LocatorView, mhz: int) -> LocatorView {
    match s.stage {
        LocatorStage::Header => {
            if tone_matches(mhz, tone_nominal(s.tone)) {
                if s.tone < 3 {
                    LocatorView { tone: s.tone + 1, ..s }
                } else if code_fits(s.origin + header_samples(rate), rate, len) {
                    LocatorView {
                        stage: LocatorStage::Vis,
                        header_end: s.origin + header_samples(rate),
                        ..s
                    }
                } else {
                    LocatorView {
                        stage: LocatorStage::Failed,
                        header_end: s.origin + header_samples(rate),
                        error: DecodeError::CodeCutShort,
                        ..s
                    }
                }
            } else {
                let next = s.origin + samples_in(HDR_HOP as int, rate);
                if next > s.origin && origin_fits(next, rate, len) {
                    LocatorView { origin: next, tone: 0, ..s }
                } else {
                    LocatorView { stage: LocatorStage::Failed, ..s }
                }
            }
        },
        LocatorStage::Vis => {
            let bits = s.bits.push(mhz <= BIT_THRESHOLD);
            if bits.len() < 8 {
                LocatorView { bits, ..s }
            } else {
                match vis_outcome(bits) {
                    Ok(code) => LocatorView {
                        stage: LocatorStage::Ready,
                        bits,
                        code: code as int,
                        ..s
                    },
                    Err(reason) => LocatorView {
                        stage: LocatorStage::Failed,
                        bits,
                        error: reason,
                        ..s
                    },
                }
            }
        },
        LocatorStage::Ready => s,
        LocatorStage::Failed => s,
    }
}

/// The stretch of samples that the locator asks for, if it asks for one.
pub open spec fn locator_stretch(rate: int, s: LocatorView) -> Option<(int, int)> {
    match s.stage {
        LocatorStage::Header => Some(
            (
                s.origin + samples_in(tone_offset(s.tone), rate),
                s.origin + samples_in(tone_offset(s.tone), rate) + samples_in(
                    HDR_WINDOW_SIZE as int,
                    rate,
                ),
            ),
        ),
        LocatorStage::Vis => Some(
            (
                s.header_end + s.bits.len() * bit_samples(rate),
                s.header_end + (s.bits.len() + 1) * bit_samples(rate),
            ),
        ),
        LocatorStage::Ready => None,
        LocatorStage::Failed => None,
    }
}

/// A locator that fits the samples: what it asks for lies within them, and
/// a code it has settled on stands for a mode.
pub open spec fn locator_wf(rate: int, len: int, s: LocatorView) -> bool {
    match s.stage {
        LocatorStage::Header => 0 <= s.tone <= 3 && origin_fits(s.origin, rate, len)
            && s.bits.len() == 0 && s.error == DecodeError::HeaderNotFound,
        LocatorStage::Vis => s.bits.len() < 8 && code_fits(s.header_end, rate, len),
        LocatorStage::Ready => catalog(s.code) is Some && s.header_end <= len,
        LocatorStage::Failed => true,
    }
}

/// The stretch of each tone lies within the header, and no length is
/// negative.
pub proof fn lemma_header_layout(rate: int)
    requires
        0 <= rate,
    ensures
        bit_samples(rate) >= 0,
        samples_in(HDR_HOP as int, rate) >= 0,
        forall|tone: int|
            0 <= #[trigger] samples_in(tone_offset(tone), rate) && samples_in(
                tone_offset(tone),
                rate,
            ) + samples_in(HDR_WINDOW_SIZE as int, rate) <= header_samples(rate),
{
    assert(bit_samples(rate) == (30_000_000 * rate) / 1_000_000_000);
    assert(samples_in(HDR_HOP as int, rate) == (2_000_000 * rate) / 1_000_000_000);
    assert(header_samples(rate) == (640_000_000 * rate) / 1_000_000_000);
    assert(samples_in(HDR_WINDOW_SIZE as int, rate) == (10_000_000 * rate) / 1_000_000_000);
    assert forall|tone: int|
        0 <= #[trigger] samples_in(tone_offset(tone), rate) && samples_in(tone_offset(tone), rate)
            + samples_in(HDR_WINDOW_SIZE as int, rate) <= header_samples(rate) by {
        if tone == 0 {
            assert(samples_in(tone_offset(tone), rate) == (0 * rate) / 1_000_000_000);
        } else if tone == 1 {
            assert(samples_in(tone_offset(tone), rate) == (300_000_000 * rate) / 1_000_000_000);
        } else if tone == 2 {
            assert(samples_in(tone_offset(tone), rate) == (310_000_000 * rate) / 1_000_000_000);
        } else {
            assert(samples_in(tone_offset(tone), rate) == (610_000_000 * rate) / 1_000_000_000);
        }
    }
}

/// What the locator asks for lies within the samples.
pub proof fn lemma_locator_stretch_fits(rate: int, len: int, s: LocatorView)
    requires
        0 <= rate,
        0 <= s.origin,
        0 <= s.header_end,
        locator_wf(rate, len, s),
    ensures
        match locator_stretch(rate, s) {
            Some((start, end)) => 0 <= start <= end <= len,
            None => s.stage == LocatorStage::Ready || s.stage == LocatorStage::Failed,
        },
{
    lemma_header_layout(rate);
    if s.stage == LocatorStage::Vis {
        let count = s.bits.len() as int;
        let bit = bit_samples(rate);
        assert(0 <= count * bit <= (count + 1) * bit <= 8 * bit) by (nonlinear_arith)
            requires
                0 <= count < 8,
                0 <= bit,
        ;
    }
}

/// Whether the first `count` tones of the header match at an origin, the
/// frequencies being those that `heard` gives for each stretch.
pub open spec fn tones_match(
    rate: int,
    heard: spec_fn(int, int) -> int,
    origin: int,
    count: int,
) -> bool {
    forall|tone: int|
        0 <= tone < count ==> #[trigger] tone_matches(
            heard(
                origin + samples_in(tone_offset(tone), rate),
                origin + samples_in(tone_offset(tone), rate) + samples_in(
                    HDR_WINDOW_SIZE as int,
                    rate,
                ),
            ),
            tone_nominal(tone),
        )
}

/// Whether a sample is an origin of the search: the first sample, or a
/// whole number of hops after it.
pub open spec fn is_origin(rate: int, origin: int) -> bool {
    origin == 0 || (origin > 0 && samples_in(HDR_HOP as int, rate) > 0 && origin % samples_in(
        HDR_HOP as int,
        rate,
    ) == 0)
}

/// Whether the header stands at no origin before this one.
pub open spec fn no_header_before(rate: int, heard: spec_fn(int, int) -> int, origin: int) -> bool {
    forall|earlier: int|
        0 <= earlier < origin && is_origin(rate, earlier) ==> !#[trigger] tones_match(
            rate,
            heard,
            earlier,
            4,
        )
}

/// Whether the bits read so far are those of the stretches after the header.
pub open spec fn bits_heard(rate: int, heard: spec_fn(int, int) -> int, s: LocatorView) -> bool {
    forall|bit: int|
        0 <= bit < s.bits.len() ==> #[trigger] s.bits[bit] == (heard(
            s.header_end + bit * bit_samples(rate),
            s.header_end + (bit + 1) * bit_samples(rate),
        ) <= BIT_THRESHOLD)
}

/// What a search has established, the frequencies being those that `heard`
/// gives for each stretch.
///
/// While a header is sought, the origin under test is an origin of the
/// search, the tones before the one under test match there, and the header
/// stands at no earlier origin. Once the header is found, it stands at the
/// origin where it was found and at no earlier one, and the bits are those of
/// the stretches after it. A search that ends without a header has found
/// that the header stands at no origin at which it would lie within the
/// samples.
pub open spec fn searched(
    rate: int,
    len: int,
    heard: spec_fn(int, int) -> int,
    s: LocatorView,
) -> bool {
    match s.stage {
        LocatorStage::Header => is_origin(rate, s.origin) && tones_match(
            rate,
            heard,
            s.origin,
            s.tone,
        ) && no_header_before(rate, heard, s.origin),
        LocatorStage::Failed if s.error == DecodeError::HeaderNotFound => forall|origin: int|
            is_origin(rate, origin) && origin_fits(origin, rate, len) ==> !#[trigger] tones_match(
                rate,
                heard,
                origin,
                4,
            ),
        _ => {
            let origin = s.header_end - header_samples(rate);
            &&& is_origin(rate, origin)
            &&& origin_fits(origin, rate, len)
            &&& tones_match(rate, heard, origin, 4)
            &&& no_header_before(rate, heard, origin)
            &&& bits_heard(rate, heard, s)
        },
    }
}

/// The locator after a number of measurements, the frequencies being those
/// that `heard` gives for each stretch asked for.
pub open spec fn locate(
    rate: int,
    len: int,
    heard: spec_fn(int, int) -> int,
    measurements: nat,
) -> LocatorView
    decreases measurements,
{
    if measurements == 0 {
        first_locator(rate, len)
    } else {
        let before = locate(rate, len, heard, (measurements - 1) as nat);
        match locator_stretch(rate, before) {
            Some((start, end)) => next_locator(rate, len, before, heard(start, end)),
            None => before,
        }
    }
}

proof fn lemma_origins_apart(hop: int, origin: int, other: int)
    requires
        hop > 0,
        0 <= origin,
        0 <= other,
        origin % hop == 0,
        other % hop == 0,
        other < origin + hop,
    ensures
        other <= origin,
        (origin + hop) % hop == 0,
{
    vstd::arithmetic::div_mod::lemma_fundamental_div_mod(origin, hop);
    vstd::arithmetic::div_mod::lemma_fundamental_div_mod(other, hop);
    let a = origin / hop;
    let b = other / hop;
    assert(b <= a) by (nonlinear_arith)
        requires
            hop > 0,
            origin == hop * a,
            other == hop * b,
            other < origin + hop,
    ;
    assert(other <= origin) by (nonlinear_arith)
        requires
            hop > 0,
            origin == hop * a,
            other == hop * b,
            b <= a,
    ;
    vstd::arithmetic::div_mod::lemma_mod_add_multiples_vanish(origin, hop);
}

/// One measurement keeps what a search has established.
pub proof fn lemma_search_step(rate: int, len: int, heard: spec_fn(int, int) -> int, s: LocatorView)
    requires
        0 <= rate,
        0 <= s.origin,
        locator_wf(rate, len, s),
        searched(rate, len, heard, s),
        s.stage == LocatorStage::Vis ==> s.error == DecodeError::HeaderNotFound,
    ensures
        match locator_stretch(rate, s) {
            Some((start, end)) => {
                let next = next_locator(rate, len, s, heard(start, end));
                &&& searched(rate, len, heard, next)
                &&& locator_wf(rate, len, next)
                &&& 0 <= next.origin
                &&& next.stage == LocatorStage::Vis ==> next.error == DecodeError::HeaderNotFound
                &&& next.stage == LocatorStage::Failed && next.error == DecodeError::HeaderNotFound
                    ==> s.stage == LocatorStage::Header
            },
            None => true,
        },
{
    lemma_header_layout(rate);
    let hop = samples_in(HDR_HOP as int, rate);
    match locator_stretch(rate, s) {
        Some((start, end)) => {
            let next = next_locator(rate, len, s, heard(start, end));
            if s.stage == LocatorStage::Header {
                if tone_matches(heard(start, end), tone_nominal(s.tone)) {
                    assert(tones_match(rate, heard, s.origin, s.tone + 1));
                } else {
                    assert(!tones_match(rate, heard, s.origin, 4));
                    if next.stage == LocatorStage::Header {
                        assert(hop > 0);
                        assert(s.origin % hop == 0) by {
                            vstd::arithmetic::div_mod::lemma_small_mod(0, hop as nat);
                        }
                        assert forall|earlier: int|
                            0 <= earlier < next.origin && is_origin(
                                rate,
                                earlier,
                            ) implies !#[trigger] tones_match(rate, heard, earlier, 4) by {
                            if earlier != 0 {
                                lemma_origins_apart(hop, s.origin, earlier);
                            }
                        }
                        lemma_origins_apart(hop, s.origin, s.origin);
                    } else {
                        assert forall|origin: int|
                            is_origin(rate, origin) && origin_fits(
                                origin,
                                rate,
                                len,
                            ) implies !#[trigger] tones_match(rate, heard, origin, 4) by {
                            if origin > s.origin && origin < s.origin + hop {
                                assert(s.origin % hop == 0) by {
                                    vstd::arithmetic::div_mod::lemma_small_mod(0, hop as nat);
                                }
                                lemma_origins_apart(hop, s.origin, origin);
                            }
                        }
                    }
                }
            } else {
                let count = s.bits.len() as int;
                let bits = s.bits.push(heard(start, end) <= BIT_THRESHOLD);
                assert forall|bit: int| 0 <= bit < bits.len() implies #[trigger] bits[bit] == (heard(
                    s.header_end + bit * bit_samples(rate),
                    s.header_end + (bit + 1) * bit_samples(rate),
                ) <= BIT_THRESHOLD) by {
                    if bit < count {
                        assert(s.bits[bit] == bits[bit]);
                    }
                }
                assert(next.bits == bits);
                assert(bits_heard(rate, heard, next));
                assert(next.error != DecodeError::HeaderNotFound || next.stage
                    != LocatorStage::Failed);
            }
        },
        None => {},
    }
}

/// Whatever the frequencies and however many the measurements, the search
/// has established what `searched` says: the header is taken at the first
/// origin at which all four tones match, and a search fails for want of a
/// header only if they match at no origin.
pub proof fn lemma_search(rate: int, len: int, heard: spec_fn(int, int) -> int, measurements: nat)
    requires
        0 <= rate,
    ensures
        searched(rate, len, heard, locate(rate, len, heard, measurements)),
        locator_wf(rate, len, locate(rate, len, heard, measurements)),
        0 <= locate(rate, len, heard, measurements).origin,
        locate(rate, len, heard, measurements).stage == LocatorStage::Vis ==> locate(
            rate,
            len,
            heard,
            measurements,
        ).error == DecodeError::HeaderNotFound,
    decreases measurements,
{
    lemma_header_layout(rate);
    if measurements == 0 {
        let first = first_locator(rate, len);
        if first.stage == LocatorStage::Failed {
            assert forall|origin: int|
                is_origin(rate, origin) && origin_fits(
                    origin,
                    rate,
                    len,
                ) implies !#[trigger] tones_match(rate, heard, origin, 4) by {}
        }
    } else {
        let before = locate(rate, len, heard, (measurements - 1) as nat);
        lemma_search(rate, len, heard, (measurements - 1) as nat);
        lemma_search_step(rate, len, heard, before);
    }
}

/// A search that is over has failed for want of a header exactly if the four
/// tones match at no origin at which the header lies within the samples.
pub proof fn lemma_header_not_found(
    rate: int,
    len: int,
    heard: spec_fn(int, int) -> int,
    measurements: nat,
)
    requires
        0 <= rate,
        locator_stretch(rate, locate(rate, len, heard, measurements)) is None,
    ensures
        (locate(rate, len, heard, measurements).stage == LocatorStage::Failed && locate(
            rate,
            len,
            heard,
            measurements,
        ).error == DecodeError::HeaderNotFound) <==> (forall|origin: int|
            is_origin(rate, origin) && origin_fits(origin, rate, len) ==> !#[trigger] tones_match(
                rate,
                heard,
                origin,
                4,
            )),
{
    lemma_search(rate, len, heard, measurements);
    let end = locate(rate, len, heard, measurements);
    if !(end.stage == LocatorStage::Failed && end.error == DecodeError::HeaderNotFound) {
        let origin = end.header_end - header_samples(rate);
        assert(is_origin(rate, origin) && origin_fits(origin, rate, len) && tones_match(
            rate,
            heard,
            origin,
            4,
        ));
    }
}

impl Locator {
    /// The locator before anything is measured.
    pub fn new(rate: u32, len: usize) -> (locator: Locator)
        ensures
            locator@ == first_locator(rate as int, len as int),
            locator_wf(rate as int, len as int, locator@),
    {
        let stage = if samples_of(HDR_SIZE, rate) as u128 <= len as u128 {
            LocatorStage::Header
        } else {
            LocatorStage::Failed
        };
        Locator {
            stage,
            origin: 0,
            tone: 0,
            header_end: 0,
            bits: Vec::new(),
            code: 0,
            error: DecodeError::HeaderNotFound,
        }
    }

    /// The stretch of samples to measure next, if any is left to measure.
    pub fn stretch(&self, rate: u32, len: usize) -> (asked: Option<(usize, usize)>)
        requires
            locator_wf(rate as int, len as int, self@),
        ensures
            match asked {
                Some((start, end)) => locator_stretch(rate as int, self@) == Some(
                    (start as int, end as int),
                ) && start <= end <= len,
                None => locator_stretch(rate as int, self@) is None,
            },
    {
        proof {
            lemma_locator_stretch_fits(rate as int, len as int, self@);
        }
        match self.stage {
            LocatorStage::Header => {
                let offset: u64 = if self.tone == 0 {
                    0
                } else if self.tone == 1 {
                    BREAK_OFFSET
                } else if self.tone == 2 {
                    LEADER_OFFSET
                } else {
                    VIS_START_OFFSET
                };
                let start: u128 = self.origin as u128 + samples_of(offset, rate) as u128;
                let end: u128 = start + samples_of(HDR_WINDOW_SIZE, rate) as u128;
                Some((start as usize, end as usize))
            },
            LocatorStage::Vis => {
                let bit: u64 = samples_of(VIS_BIT_SIZE, rate);
                let count: u64 = self.bits.len() as u64;
                assert(0 <= count * bit <= (count + 1) * bit <= 8 * bit) by (nonlinear_arith)
                    requires
                        0 <= count < 8,
                        0 <= bit,
                ;
                let start: u128 = self.header_end as u128 + (count * bit) as u128;
                let end: u128 = self.header_end as u128 + ((count + 1) * bit) as u128;
                Some((start as usize, end as usize))
            },
            LocatorStage::Ready => None,
            LocatorStage::Failed => None,
        }
    }

    /// Takes the frequency of a tone of the header. A tone that matches leads
    /// to the next tone, the fourth to the reading of the code, or to failure
    /// where the samples end before the code does; one that does not leads to
    /// the next origin, or ends the search where the header would no longer lie
    /// within the samples.
    pub fn find_header(&mut self, rate: u32, len: usize, freq: Frequency)
        requires
            locator_wf(rate as int, len as int, old(self)@),
            old(self).stage == LocatorStage::Header,
        ensures
            final(self)@ == next_locator(
                rate as int,
                len as int,
                old(self)@,
                freq.millihertz as int,
            ),
            locator_wf(rate as int, len as int, final(self)@),
    {
        let nominal: u64 = if self.tone == 0 || self.tone == 2 {
            LEADER_TONE
        } else {
            BREAK_TONE
        };
        if is_tone(freq, nominal) {
            if self.tone < 3 {
                self.tone = self.tone + 1;
            } else {
                let end: u128 = self.origin as u128 + samples_of(HDR_SIZE, rate) as u128;
                let need: u128 = end + 8 * (samples_of(VIS_BIT_SIZE, rate) as u128);
                self.header_end = end as usize;
                if need <= len as u128 {
                    self.stage = LocatorStage::Vis;
                } else {
                    self.error = DecodeError::CodeCutShort;
                    self.stage = LocatorStage::Failed;
                }
            }
        } else {
            let hop: u64 = samples_of(HDR_HOP, rate);
            let next: u128 = self.origin as u128 + hop as u128;
            let need: u128 = next + samples_of(HDR_SIZE, rate) as u128;
            if hop > 0 && need <= len as u128 {
                self.origin = next as usize;
                self.tone = 0;
            } else {
                self.stage = LocatorStage::Failed;
            }
        }
    }

    /// Takes the frequency of a bit of the code: a one up to 1200 Hz, a zero
    /// above. With the eighth bit the code is read.
    pub fn read_bit(&mut self, rate: u32, len: usize, freq: Frequency)
        requires
            locator_wf(rate as int, len as int, old(self)@),
            old(self).stage == LocatorStage::Vis,
        ensures
            final(self)@ == next_locator(
                rate as int,
                len as int,
                old(self)@,
                freq.millihertz as int,
            ),
            locator_wf(rate as int, len as int, final(self)@),
    {
        self.bits.push(freq.millihertz <= BIT_THRESHOLD);
        if self.bits.len() == 8 {
            match read_vis(self.bits.as_slice()) {
                Ok(code) => {
                    self.code = code;
                    self.stage = LocatorStage::Ready;
                },
                Err(reason) => {
                    self.error = reason;
                    self.stage = LocatorStage::Failed;
                },
            }
        }
    }

    /// Takes the frequency measured over the stretch that was asked for.
    pub fn advance(&mut self, rate: u32, len: usize, freq: Frequency)
        requires
            locator_wf(rate as int, len as int, old(self)@),
        ensures
            final(self)@ == next_locator(
                rate as int,
                len as int,
                old(self)@,
                freq.millihertz as int,
            ),
            locator_wf(rate as int, len as int, final(self)@),
    {
        match self.stage {
            LocatorStage::Header => self.find_header(rate, len, freq),
            LocatorStage::Vis => self.read_bit(rate, len, freq),
            LocatorStage::Ready => {},
            LocatorStage::Failed => {},
        }
    }
}

} // verus!
