//! The walk over the scanlines.
//!
//! A walk is a cursor into the samples and a place in the picture. It asks
//! for one stretch of samples at a time: while the sync pulse of a line is
//! sought, the stretch moves on by one sample; while a channel is read, each
//! pixel has its own stretch. The walk ends when every line is read, or when
//! a stretch would reach beyond the samples.

use crate::freq::{Frequency, SYNC_THRESHOLD};
use crate::modes::{Spec, SpecView};
use crate::timing::{lemma_samples_in_bounds, samples_in, samples_of};
use vstd::prelude::*;

verus! {

/// No cursor lies beyond this sample.
pub const CURSOR_LIMIT: u128 = 0x4_0000_0000_0000_0000;

/// What a walk is doing.
#[derive(Debug, Clone, Copy, PartialEq, Eq, Structural)]
pub enum Stage {
    /// Seeking the end of the sync pulse that stands before the first line.
    StartSync,
    /// Seeking the sync pulse of a line.
    LineSync,
    /// Reading a pixel.
    Pixel,
    /// Every line has been read.
    Completed,
    /// The samples ended before the picture did.
    Truncated,
}

/// A walk: its stage, the cursor from which the channels of a line are
/// counted, the start of the stretch in which a sync pulse is sought, and the
/// place in the picture that comes next.
#[derive(Debug, Clone, Copy)]
pub struct Scan {
    pub stage: Stage,
    pub cursor: u128,
    pub probe: usize,
    pub line: usize,
    pub chan: usize,
    pub px: usize,
}

/// The mathematical content of a walk.
pub struct ScanView {
    pub stage: Stage,
    pub cursor: int,
    pub probe: int,
    pub line: int,
    pub chan: int,
    pub px: int,
}

impl View for Scan {
    type V = ScanView;

    open spec fn view(&self) -> ScanView {
        ScanView {
            stage: self.stage,
            cursor: self.cursor as int,
            probe: self.probe as int,
            line: self.line as int,
            chan: self.chan as int,
            px: self.px as int,
        }
    }
}

/// Length of the stretch in which a sync pulse is sought: 1.4 times the
/// pulse, in whole samples.
pub open spec fn sync_window(m: SpecView, rate: int) -> int {
    (m.sync_pulse * 7 * rate) / 5_000_000_000
}

/// Where a sync pulse ends, given the first stretch that no longer peaks in
/// it: at the middle of that stretch.
pub open spec fn trailing_edge(probe: int, window: int) -> int {
    probe + window / 2
}

/// Where a sync pulse begins: one pulse length before the middle of the
/// first stretch that no longer peaks in it, rounded down, and not before
/// the first sample.
pub open spec fn leading_edge(probe: int, window: int, m: SpecView, rate: int) -> int {
    let doubled = 2_000_000_000 * probe + 1_000_000_000 * window - 2 * (m.sync_pulse * rate);
    if doubled < 0 {
        0
    } else {
        doubled / 2_000_000_000
    }
}

/// The cursor for the first line. Where the sync pulse comes on a later
/// channel, the channels before it are counted from the pulse of a line
/// before the first: the cursor steps back by the offset of the sync channel
/// and one scan, though not before the first sample.
pub open spec fn first_line_cursor(base: int, m: SpecView, rate: int) -> int {
    if m.chan_sync > 0 {
        let back = samples_in((m.chan_offsets[m.chan_sync as int] + m.scan_time) as int, rate);
        if back > base {
            0
        } else {
            base - back
        }
    } else {
        base
    }
}

/// Duration of a pixel: channels after the first are scanned at half length
/// where the mode says so.
pub open spec fn pixel_time(m: SpecView, chan: int) -> int {
    if m.has_half_scan && chan > 0 {
        m.half_pixel_time as int
    } else {
        m.pixel_time as int
    }
}

/// Length of the stretch over which a pixel is measured: its duration times
/// the window factor, in whole samples.
pub open spec fn pixel_window(m: SpecView, chan: int, rate: int) -> int {
    (pixel_time(m, chan) * m.window_factor * rate) / 100_000_000_000
}

/// Start of the stretch over which a pixel is measured: the cursor, plus the
/// offset of the channel and the pixels before this one, less half the
/// window, rounded down, and not before the first sample.
pub open spec fn pixel_start(m: SpecView, chan: int, px: int, cursor: int, rate: int) -> int {
    let ahead = (200 * (m.chan_offsets[chan] + px * pixel_time(m, chan))) * rate;
    let back = pixel_time(m, chan) * m.window_factor * rate;
    let scaled = 200_000_000_000 * cursor + ahead - back;
    if scaled < 0 {
        0
    } else {
        scaled / 200_000_000_000
    }
}

/// A pixel comes up: it is read if its stretch lies within the samples, and
/// the walk ends there if not.
pub open spec fn settle_pixel(
    m: SpecView,
    rate: int,
    len: int,
    cursor: int,
    line: int,
    chan: int,
    px: int,
) -> ScanView {
    let end = pixel_start(m, chan, px, cursor, rate) + pixel_window(m, chan, rate);
    ScanView {
        stage: if end > len {
            Stage::Truncated
        } else {
            Stage::Pixel
        },
        cursor,
        probe: 0,
        line,
        chan,
        px,
    }
}

/// A channel comes up. After the last line the walk is complete. On the
/// channel that bears the sync pulse the pulse is sought, one line further
/// on than the cursor except at the very first channel of the picture; the
/// walk ends if the first stretch of the search reaches beyond the samples.
/// On any other channel the first pixel comes up.
pub open spec fn settle_channel(
    m: SpecView,
    rate: int,
    len: int,
    cursor: int,
    line: int,
    chan: int,
) -> ScanView {
    if line >= m.line_count {
        ScanView { stage: Stage::Completed, cursor, probe: 0, line, chan: 0, px: 0 }
    } else if chan == m.chan_sync {
        let probe = if line > 0 || chan > 0 {
            cursor + samples_in(m.line_time as int, rate)
        } else {
            cursor
        };
        if probe + sync_window(m, rate) > len {
            ScanView { stage: Stage::Truncated, cursor, probe: 0, line, chan, px: 0 }
        } else {
            ScanView { stage: Stage::LineSync, cursor, probe, line, chan, px: 0 }
        }
    } else {
        settle_pixel(m, rate, len, cursor, line, chan, 0)
    }
}

/// The walk at the start of the picture.
pub open spec fn first_scan(m: SpecView, rate: int, len: int, image_start: int) -> ScanView {
    if m.has_start_sync {
        if image_start + sync_window(m, rate) > len {
            ScanView {
                stage: Stage::Truncated,
                cursor: image_start,
                probe: 0,
                line: 0,
                chan: 0,
                px: 0,
            }
        } else {
            ScanView {
                stage: Stage::StartSync,
                cursor: image_start,
                probe: image_start,
                line: 0,
                chan: 0,
                px: 0,
            }
        }
    } else {
        settle_channel(m, rate, len, first_line_cursor(image_start, m, rate), 0, 0)
    }
}

/// Whether a search for a sync pulse ends with this measurement: the stretch
/// peaks above the threshold, or the next stretch would reach beyond the
/// samples.
pub open spec fn sync_search_ends(m: SpecView, rate: int, len: int, probe: int, mhz: int) -> bool {
    mhz > SYNC_THRESHOLD || probe + 1 + sync_window(m, rate) > len
}

/// Where a search that ends with this measurement places the stretch that
/// no longer peaks in the pulse: where it stands, or one sample further on
/// if no stretch peaked above the threshold.
pub open spec fn sync_found_at(probe: int, mhz: int) -> int {
    if mhz > SYNC_THRESHOLD {
        probe
    } else {
        probe + 1
    }
}

/// The walk after one measurement.
pub open spec fn next_scan(m: SpecView, rate: int, len: int, s: ScanView, mhz: int) -> ScanView {
    match s.stage {
        Stage::StartSync => {
            if sync_search_ends(m, rate, len, s.probe, mhz) {
                let end = trailing_edge(sync_found_at(s.probe, mhz), sync_window(m, rate));
                settle_channel(m, rate, len, first_line_cursor(end, m, rate), 0, 0)
            } else {
                ScanView { probe: s.probe + 1, ..s }
            }
        },
        Stage::LineSync => {
            if sync_search_ends(m, rate, len, s.probe, mhz) {
                let start = leading_edge(
                    sync_found_at(s.probe, mhz),
                    sync_window(m, rate),
                    m,
                    rate,
                );
                settle_pixel(m, rate, len, start, s.line, s.chan, 0)
            } else {
                ScanView { probe: s.probe + 1, ..s }
            }
        },
        Stage::Pixel => {
            if s.px + 1 < m.line_width {
                settle_pixel(m, rate, len, s.cursor, s.line, s.chan, s.px + 1)
            } else if s.chan + 1 < m.chan_count {
                settle_channel(m, rate, len, s.cursor, s.line, s.chan + 1)
            } else {
                settle_channel(m, rate, len, s.cursor, s.line + 1, 0)
            }
        },
        Stage::Completed => s,
        Stage::Truncated => s,
    }
}

/// The stretch of samples that a walk asks for, if it asks for one.
pub open spec fn stretch(m: SpecView, rate: int, s: ScanView) -> Option<(int, int)> {
    match s.stage {
        Stage::StartSync => Some((s.probe, s.probe + sync_window(m, rate))),
        Stage::LineSync => Some((s.probe, s.probe + sync_window(m, rate))),
        Stage::Pixel => Some(
            (
                pixel_start(m, s.chan, s.px, s.cursor, rate),
                pixel_start(m, s.chan, s.px, s.cursor, rate) + pixel_window(m, s.chan, rate),
            ),
        ),
        Stage::Completed => None,
        Stage::Truncated => None,
    }
}

/// A walk that fits its mode and the samples: its place lies in the picture,
/// and the stretch it asks for lies within the samples.
pub open spec fn scan_wf(m: SpecView, rate: int, len: int, s: ScanView) -> bool {
    &&& 0 <= s.cursor <= CURSOR_LIMIT
    &&& 0 <= s.probe
    &&& 0 <= s.line <= m.line_count
    &&& 0 <= s.chan
    &&& 0 <= s.px
    &&& match s.stage {
        Stage::StartSync => s.line == 0 && s.chan == 0 && s.px == 0 && s.probe + sync_window(
            m,
            rate,
        ) <= len,
        Stage::LineSync => s.line < m.line_count && s.chan == m.chan_sync && s.px == 0 && s.probe
            + sync_window(m, rate) <= len,
        Stage::Pixel => s.line < m.line_count && s.chan < m.chan_count && s.px < m.line_width
            && pixel_start(m, s.chan, s.px, s.cursor, rate) + pixel_window(m, s.chan, rate)
            <= len,
        Stage::Completed => s.line == m.line_count && s.chan == 0 && s.px == 0,
        Stage::Truncated => (s.line < m.line_count && s.chan < m.chan_count && s.px
            < m.line_width) || (s.line == 0 && s.chan == 0 && s.px == 0),
    }
}

/// Where the search for a sync pulse began: at the cursor before the first
/// line and at the very first channel of the picture, one line length after
/// the cursor otherwise.
pub open spec fn search_start(m: SpecView, rate: int, s: ScanView) -> int {
    if s.stage == Stage::LineSync && (s.line > 0 || s.chan > 0) {
        s.cursor + samples_in(m.line_time as int, rate)
    } else {
        s.cursor
    }
}

/// What a search for a sync pulse has established, the frequencies being
/// those that `heard` gives for each stretch: no stretch from the start of
/// the search up to the one under test peaked above the threshold.
pub open spec fn sought(m: SpecView, rate: int, heard: spec_fn(int, int) -> int, s: ScanView) -> bool {
    s.stage == Stage::StartSync || s.stage == Stage::LineSync ==> {
        &&& search_start(m, rate, s) <= s.probe
        &&& forall|at: int|
            search_start(m, rate, s) <= at < s.probe ==> #[trigger] heard(
                at,
                at + sync_window(m, rate),
            ) <= SYNC_THRESHOLD
    }
}

/// The walk after a number of measurements, the frequencies being those that
/// `heard` gives for each stretch asked for.
pub open spec fn walk(
    m: SpecView,
    rate: int,
    len: int,
    image_start: int,
    heard: spec_fn(int, int) -> int,
    measurements: nat,
) -> ScanView
    decreases measurements,
{
    if measurements == 0 {
        first_scan(m, rate, len, image_start)
    } else {
        let before = walk(m, rate, len, image_start, heard, (measurements - 1) as nat);
        match stretch(m, rate, before) {
            Some((start, end)) => next_scan(m, rate, len, before, heard(start, end)),
            None => before,
        }
    }
}

/// The lengths that a walk works with are not negative, and a cursor set
/// from a sync pulse lies no later than the middle of the stretch in which
/// the pulse was found.
pub proof fn lemma_walk_lengths(m: SpecView, rate: int, probe: int, base: int)
    requires
        m.wf(),
        0 <= rate <= u32::MAX,
        0 <= probe,
        0 <= base,
    ensures
        0 <= sync_window(m, rate) < 0x1000_0000_0000,
        0 <= samples_in(m.line_time as int, rate),
        0 <= leading_edge(probe, sync_window(m, rate), m, rate) <= trailing_edge(
            probe,
            sync_window(m, rate),
        ),
        0 <= first_line_cursor(base, m, rate) <= base,
{
    lemma_product_bounds(m.sync_pulse as int * 7, rate, 0x700_0000_0000, 0xffff_ffff);
    lemma_product_bounds(m.sync_pulse as int, rate, 0x100_0000_0000, 0xffff_ffff);
    lemma_samples_in_bounds(m.line_time as int, rate);
}

/// A measurement keeps a walk within its mode and the samples.
pub proof fn lemma_next_scan_wf(m: SpecView, rate: int, len: int, s: ScanView, mhz: int)
    requires
        m.wf(),
        0 <= rate <= u32::MAX,
        0 <= len <= u64::MAX,
        scan_wf(m, rate, len, s),
    ensures
        scan_wf(m, rate, len, next_scan(m, rate, len, s, mhz)),
{
    let at = sync_found_at(s.probe, mhz);
    lemma_walk_lengths(m, rate, at, trailing_edge(at, sync_window(m, rate)));
}

/// One measurement keeps what a search for a sync pulse has established.
/// Where the search ends with it, the stretch that counts as found is the
/// first, from the start of the search, that peaks above the threshold, or,
/// if there is none within the samples, the first that reaches beyond them.
pub proof fn lemma_sync_step(
    m: SpecView,
    rate: int,
    len: int,
    heard: spec_fn(int, int) -> int,
    s: ScanView,
)
    requires
        m.wf(),
        0 <= rate <= u32::MAX,
        0 <= len <= u64::MAX,
        scan_wf(m, rate, len, s),
        sought(m, rate, heard, s),
    ensures
        match stretch(m, rate, s) {
            Some((start, end)) => {
                let mhz = heard(start, end);
                let next = next_scan(m, rate, len, s, mhz);
                let found = sync_found_at(s.probe, mhz);
                &&& sought(m, rate, heard, next)
                &&& (s.stage == Stage::StartSync || s.stage == Stage::LineSync) && sync_search_ends(
                    m,
                    rate,
                    len,
                    s.probe,
                    mhz,
                ) ==> {
                    &&& forall|at: int|
                        search_start(m, rate, s) <= at < found ==> #[trigger] heard(
                            at,
                            at + sync_window(m, rate),
                        ) <= SYNC_THRESHOLD
                    &&& heard(found, found + sync_window(m, rate)) > SYNC_THRESHOLD || found
                        + sync_window(m, rate) > len
                    &&& s.stage == Stage::StartSync ==> next.cursor == first_line_cursor(
                        trailing_edge(found, sync_window(m, rate)),
                        m,
                        rate,
                    )
                    &&& s.stage == Stage::LineSync ==> next.cursor == leading_edge(
                        found,
                        sync_window(m, rate),
                        m,
                        rate,
                    )
                }
            },
            None => true,
        },
{
    lemma_walk_lengths(m, rate, 0, 0);
}

/// Whatever the frequencies and however many the measurements, the walk
/// stays within its mode and the samples, and while it seeks a sync pulse no
/// stretch since the start of the search has peaked above the threshold.
pub proof fn lemma_walk(
    m: SpecView,
    rate: int,
    len: int,
    image_start: int,
    heard: spec_fn(int, int) -> int,
    measurements: nat,
)
    requires
        m.wf(),
        0 <= rate <= u32::MAX,
        0 <= len <= u64::MAX,
        0 <= image_start <= CURSOR_LIMIT,
    ensures
        scan_wf(m, rate, len, walk(m, rate, len, image_start, heard, measurements)),
        sought(m, rate, heard, walk(m, rate, len, image_start, heard, measurements)),
    decreases measurements,
{
    if measurements == 0 {
        lemma_walk_lengths(m, rate, 0, image_start);
    } else {
        let before = walk(m, rate, len, image_start, heard, (measurements - 1) as nat);
        lemma_walk(m, rate, len, image_start, heard, (measurements - 1) as nat);
        match stretch(m, rate, before) {
            Some((start, end)) => {
                lemma_next_scan_wf(m, rate, len, before, heard(start, end));
                lemma_sync_step(m, rate, len, heard, before);
            },
            None => {},
        }
    }
}

proof fn lemma_product_bounds(a: int, b: int, amax: int, bmax: int)
    by (nonlinear_arith)
    requires
        0 <= a <= amax,
        0 <= b <= bmax,
    ensures
        0 <= a * b <= amax * bmax,
{
}

/// Length of the stretch in which a sync pulse is sought.
pub fn sync_window_of(mode: &Spec, rate: u32) -> (window: u64)
    requires
        mode@.wf(),
    ensures
        window == sync_window(mode@, rate as int),
        window < 0x1000_0000_0000,
{
    proof {
        lemma_product_bounds(
            mode.sync_pulse as int * 7,
            rate as int,
            0x700_0000_0000,
            0xffff_ffff,
        );
    }
    let product: u128 = ((mode.sync_pulse as u128) * 7) * (rate as u128);
    (product / 5_000_000_000) as u64
}

/// Where a sync pulse begins.
pub fn leading_edge_of(probe: u128, window: u64, mode: &Spec, rate: u32) -> (edge: u128)
    requires
        mode@.wf(),
        probe <= 0x1_0000_0000_0000_0000,
        window < 0x1000_0000_0000,
    ensures
        edge == leading_edge(probe as int, window as int, mode@, rate as int),
        edge <= probe + window / 2,
{
    proof {
        lemma_product_bounds(
            mode.sync_pulse as int,
            rate as int,
            0x100_0000_0000,
            0xffff_ffff,
        );
    }
    let there: u128 = 2_000_000_000 * probe + 1_000_000_000 * (window as u128);
    let pulse: u128 = 2 * ((mode.sync_pulse as u128) * (rate as u128));
    if there < pulse {
        0
    } else {
        (there - pulse) / 2_000_000_000
    }
}

/// The cursor for the first line.
pub fn first_line_cursor_of(base: u128, mode: &Spec, rate: u32) -> (cursor: u128)
    requires
        mode@.wf(),
    ensures
        cursor == first_line_cursor(base as int, mode@, rate as int),
        cursor <= base,
{
    if mode.chan_sync > 0 {
        let offset: u64 = mode.chan_offsets[mode.chan_sync];
        assert(mode@.chan_offsets[mode.chan_sync as int] == offset);
        let back: u64 = samples_of(offset + mode.scan_time, rate);
        if back as u128 > base {
            0
        } else {
            base - back as u128
        }
    } else {
        base
    }
}

/// The stretch over which a pixel is measured, if it lies within the
/// samples.
pub fn pixel_stretch_of(
    mode: &Spec,
    rate: u32,
    len: usize,
    cursor: u128,
    chan: usize,
    px: usize,
) -> (found: Option<(usize, usize)>)
    requires
        mode@.wf(),
        cursor <= CURSOR_LIMIT,
        chan < mode@.chan_count,
        px < mode@.line_width,
    ensures
        match found {
            Some((start, end)) => start == pixel_start(
                mode@,
                chan as int,
                px as int,
                cursor as int,
                rate as int,
            ) && end == start + pixel_window(mode@, chan as int, rate as int) && end <= len,
            None => pixel_start(mode@, chan as int, px as int, cursor as int, rate as int)
                + pixel_window(mode@, chan as int, rate as int) > len,
        },
{
    let pt: u64 = if mode.has_half_scan && chan > 0 {
        mode.half_pixel_time
    } else {
        mode.pixel_time
    };
    let offset: u64 = mode.chan_offsets[chan];
    assert(mode@.chan_offsets[chan as int] == offset);
    assert(pt == pixel_time(mode@, chan as int));
    proof {
        lemma_product_bounds(px as int, pt as int, 0xffff_ffff, 0x100_0000_0000);
        lemma_product_bounds(
            200 * (offset + px * pt),
            rate as int,
            200 * (0x100_0000_0000 + 0xffff_ffff * 0x100_0000_0000int),
            0xffff_ffff,
        );
        lemma_product_bounds(
            pt as int,
            mode.window_factor as int,
            0x100_0000_0000,
            0xffff_ffff,
        );
        lemma_product_bounds(
            pt * mode.window_factor,
            rate as int,
            0x100_0000_0000 * 0xffff_ffffint,
            0xffff_ffff,
        );
    }
    let travelled: u128 = (px as u128) * (pt as u128);
    let ahead: u128 = (200 * ((offset as u128) + travelled)) * (rate as u128);
    let back: u128 = ((pt as u128) * (mode.window_factor as u128)) * (rate as u128);
    let base: u128 = 200_000_000_000 * cursor;
    let start: u128 = if base + ahead < back {
        0
    } else {
        (base + ahead - back) / 200_000_000_000
    };
    let end: u128 = start + back / 100_000_000_000;
    if end > len as u128 {
        None
    } else {
        Some((start as usize, end as usize))
    }
}

/// A pixel comes up.
pub fn settle_pixel_of(
    mode: &Spec,
    rate: u32,
    len: usize,
    cursor: u128,
    line: usize,
    chan: usize,
    px: usize,
) -> (scan: Scan)
    requires
        mode@.wf(),
        cursor <= CURSOR_LIMIT,
        line < mode@.line_count,
        chan < mode@.chan_count,
        px < mode@.line_width,
    ensures
        scan@ == settle_pixel(
            mode@,
            rate as int,
            len as int,
            cursor as int,
            line as int,
            chan as int,
            px as int,
        ),
        scan_wf(mode@, rate as int, len as int, scan@),
{
    let stage = match pixel_stretch_of(mode, rate, len, cursor, chan, px) {
        Some(_) => Stage::Pixel,
        None => Stage::Truncated,
    };
    Scan { stage, cursor, probe: 0, line, chan, px }
}

/// A channel comes up.
pub fn settle_channel_of(
    mode: &Spec,
    rate: u32,
    len: usize,
    cursor: u128,
    line: usize,
    chan: usize,
) -> (scan: Scan)
    requires
        mode@.wf(),
        cursor <= CURSOR_LIMIT,
        line <= mode@.line_count,
        chan < mode@.chan_count,
        line == mode@.line_count ==> chan == 0,
    ensures
        scan@ == settle_channel(
            mode@,
            rate as int,
            len as int,
            cursor as int,
            line as int,
            chan as int,
        ),
        scan_wf(mode@, rate as int, len as int, scan@),
{
    if line >= mode.line_count {
        Scan { stage: Stage::Completed, cursor, probe: 0, line, chan: 0, px: 0 }
    } else if chan == mode.chan_sync {
        let window: u64 = sync_window_of(mode, rate);
        let probe: u128 = if line > 0 || chan > 0 {
            cursor + samples_of(mode.line_time, rate) as u128
        } else {
            cursor
        };
        if probe + window as u128 > len as u128 {
            Scan { stage: Stage::Truncated, cursor, probe: 0, line, chan, px: 0 }
        } else {
            Scan { stage: Stage::LineSync, cursor, probe: probe as usize, line, chan, px: 0 }
        }
    } else {
        settle_pixel_of(mode, rate, len, cursor, line, chan, 0)
    }
}

/// The walk at the start of the picture.
pub fn first_scan_of(mode: &Spec, rate: u32, len: usize, image_start: u128) -> (scan: Scan)
    requires
        mode@.wf(),
        image_start <= CURSOR_LIMIT,
    ensures
        scan@ == first_scan(mode@, rate as int, len as int, image_start as int),
        scan_wf(mode@, rate as int, len as int, scan@),
{
    if mode.has_start_sync {
        let window: u64 = sync_window_of(mode, rate);
        if image_start + window as u128 > len as u128 {
            Scan {
                stage: Stage::Truncated,
                cursor: image_start,
                probe: 0,
                line: 0,
                chan: 0,
                px: 0,
            }
        } else {
            Scan {
                stage: Stage::StartSync,
                cursor: image_start,
                probe: image_start as usize,
                line: 0,
                chan: 0,
                px: 0,
            }
        }
    } else {
        let cursor: u128 = first_line_cursor_of(image_start, mode, rate);
        settle_channel_of(mode, rate, len, cursor, 0, 0)
    }
}

/// Takes a measurement while a sync pulse is sought. The search ends at the
/// first stretch that peaks above the threshold, or where the next stretch
/// would reach beyond the samples. Before the first line the cursor is then
/// set to the end of the pulse; on a line, to its beginning.
pub fn align_sync(mode: &Spec, rate: u32, len: usize, scan: Scan, freq: Frequency) -> (next: Scan)
    requires
        mode@.wf(),
        scan_wf(mode@, rate as int, len as int, scan@),
        scan.stage == Stage::StartSync || scan.stage == Stage::LineSync,
    ensures
        next@ == next_scan(mode@, rate as int, len as int, scan@, freq.millihertz as int),
        scan_wf(mode@, rate as int, len as int, next@),
{
    let window: u64 = sync_window_of(mode, rate);
    let above: bool = freq.millihertz > SYNC_THRESHOLD;
    if above || scan.probe as u128 + 1 + window as u128 > len as u128 {
        let at: u128 = if above {
            scan.probe as u128
        } else {
            scan.probe as u128 + 1
        };
        match scan.stage {
            Stage::StartSync => {
                let end: u128 = at + (window / 2) as u128;
                let cursor: u128 = first_line_cursor_of(end, mode, rate);
                settle_channel_of(mode, rate, len, cursor, 0, 0)
            },
            _ => {
                let cursor: u128 = leading_edge_of(at, window, mode, rate);
                settle_pixel_of(mode, rate, len, cursor, scan.line, scan.chan, 0)
            },
        }
    } else {
        Scan { probe: scan.probe + 1, ..scan }
    }
}

/// The walk after one measurement.
pub fn next_scan_of(mode: &Spec, rate: u32, len: usize, scan: Scan, freq: Frequency) -> (next: Scan)
    requires
        mode@.wf(),
        scan_wf(mode@, rate as int, len as int, scan@),
    ensures
        next@ == next_scan(mode@, rate as int, len as int, scan@, freq.millihertz as int),
        scan_wf(mode@, rate as int, len as int, next@),
{
    match scan.stage {
        Stage::StartSync => align_sync(mode, rate, len, scan, freq),
        Stage::LineSync => align_sync(mode, rate, len, scan, freq),
        Stage::Pixel => {
            if scan.px + 1 < mode.line_width {
                settle_pixel_of(mode, rate, len, scan.cursor, scan.line, scan.chan, scan.px + 1)
            } else if scan.chan + 1 < mode.chan_count {
                settle_channel_of(mode, rate, len, scan.cursor, scan.line, scan.chan + 1)
            } else {
                settle_channel_of(mode, rate, len, scan.cursor, scan.line + 1, 0)
            }
        },
        Stage::Completed => scan,
        Stage::Truncated => scan,
    }
}

} // verus!
