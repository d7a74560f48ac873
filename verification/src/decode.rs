//! The two halves of a decode.
//!
//! `SSTVSetup` holds the samples of a recording and finds the header and the
//! mode; `SSTVDecoder` reads the picture. Each names the stretch of samples
//! whose peak frequency it needs next (`window`) and takes the measured
//! frequency (`observe`, `decode_image_data`); the caller measures, with the
//! transform of its choice, until no stretch is asked for.

use crate::compose::{draw_image, picture, pixel_drawn};
use crate::crypt::zlib_stream;
use crate::png::{encode_png, framed, png_file, scanlines};
use crate::freq::{calc_lum, Frequency};
use crate::grid::{cell_index, lemma_cell_index_bounds, IntensityGrid};
use crate::img::Image;
use crate::locator::{
    first_locator, locator_stretch, locator_wf, next_locator, Locator, LocatorStage, LocatorView,
};
use crate::reading::{blank, cells_after};
use crate::modes::{catalog, lemma_catalog_geometry, Spec, SpecView, VIS_MAP};
use crate::scan::{
    first_scan, first_scan_of, next_scan, next_scan_of, pixel_stretch_of, scan_wf, stretch,
    sync_window_of, Scan, ScanView, Stage,
};
use crate::timing::{samples_in, samples_of, VIS_BIT_SIZE};
use crate::vis::DecodeError;
use vstd::prelude::*;
use vstd::slice::slice_to_vec;

verus! {

/// Every `step`-th sample, from the first on: one channel of samples that
/// come interleaved.
pub open spec fn every_nth(samples: Seq<i16>, step: int) -> Seq<i16>
    decreases samples.len(),
{
    if samples.len() == 0 || step <= 0 {
        Seq::empty()
    } else if samples.len() <= step {
        seq![samples[0]]
    } else {
        seq![samples[0]] + every_nth(samples.skip(step), step)
    }
}

/// What `every_nth` holds: sample `i` of the channel is sample `i * step` of
/// the interleaved ones, and there is one for every `step` samples begun, so
/// that the last one taken lies within the interleaved ones.
pub proof fn lemma_every_nth(samples: Seq<i16>, step: int)
    requires
        step >= 1,
    ensures
        every_nth(samples, step).len() * step >= samples.len(),
        samples.len() > 0 ==> (every_nth(samples, step).len() - 1) * step < samples.len(),
        samples.len() == 0 ==> every_nth(samples, step).len() == 0,
        forall|i: int|
            0 <= i < every_nth(samples, step).len() ==> #[trigger] every_nth(samples, step)[i]
                == samples[i * step],
    decreases samples.len(),
{
    let all = every_nth(samples, step);
    if samples.len() == 0 {
        assert(all.len() * step == 0) by (nonlinear_arith)
            requires
                all.len() == 0,
        ;
    } else if samples.len() <= step {
        assert(all =~= seq![samples[0]]);
        assert(all.len() * step == step && (all.len() - 1) * step == 0) by (nonlinear_arith)
            requires
                all.len() == 1,
        ;
        assert forall|i: int| 0 <= i < all.len() implies #[trigger] all[i] == samples[i * step] by {
            assert(i * step == 0) by (nonlinear_arith)
                requires
                    i == 0,
            ;
        }
    } else {
        let rest = samples.skip(step);
        let thinned = every_nth(rest, step);
        lemma_every_nth(rest, step);
        assert(all =~= seq![samples[0]] + thinned);
        assert(all.len() == thinned.len() + 1);
        assert(all.len() * step >= samples.len() && (all.len() - 1) * step < samples.len())
            by (nonlinear_arith)
            requires
                all.len() == thinned.len() + 1,
                thinned.len() * step >= samples.len() - step,
                (thinned.len() - 1) * step < samples.len() - step,
                thinned.len() >= 1,
        ;
        assert forall|i: int| 0 <= i < all.len() implies #[trigger] all[i] == samples[i * step] by {
            if i == 0 {
                assert(i * step == 0) by (nonlinear_arith)
                    requires
                        i == 0,
                ;
            } else {
                let before = thinned[i - 1];
                assert(before == rest[(i - 1) * step]);
                assert(0 <= (i - 1) * step < rest.len()) by (nonlinear_arith)
                    requires
                        1 <= i <= thinned.len(),
                        (thinned.len() - 1) * step < rest.len(),
                        step >= 1,
                ;
                assert((i - 1) * step + step == i * step) by (nonlinear_arith);
                assert(rest[(i - 1) * step] == samples[(i - 1) * step + step]);
                assert(all[i] == thinned[i - 1]);
            }
        }
    }
}

/// Where the picture starts: nine bit lengths after the header, for the
/// eight bits of the code and the stop bit.
pub open spec fn image_start(header_end: int, rate: int) -> int {
    header_end + samples_in(9 * VIS_BIT_SIZE, rate)
}

/// A recording, and the search for its header and mode.
#[derive(Clone)]
pub struct SSTVSetup {
    sample_rate: u32,
    samples: Vec<i16>,
    locator: Locator,
}

/// A recording whose mode is known, and the reading of its picture.
pub struct SSTVDecoder {
    mode: Spec,
    sample_rate: u32,
    samples: Vec<i16>,
    header_end: usize,
    scan: Scan,
    index: usize,
    grid: IntensityGrid,
}

impl SSTVSetup {
    /// The search fits the samples.
    pub closed spec fn wf(&self) -> bool {
        locator_wf(self.sample_rate as int, self.samples@.len() as int, self.locator@)
    }

    /// The sample rate in hertz.
    pub closed spec fn spec_sample_rate(&self) -> int {
        self.sample_rate as int
    }

    /// The samples, one channel of them.
    pub closed spec fn spec_samples(&self) -> Seq<i16> {
        self.samples@
    }

    /// Where the search stands.
    pub closed spec fn spec_locator(&self) -> LocatorView {
        self.locator@
    }

    /// Takes the samples of a recording as they were decoded, `channels` of
    /// them interleaved, and keeps the first channel.
    pub fn new(sample_rate: u32, channels: u16, samples: &[i16]) -> (setup: SSTVSetup)
        requires
            channels >= 1,
        ensures
            setup.wf(),
            setup.spec_sample_rate() == sample_rate,
            setup.spec_samples() == every_nth(samples@, channels as int),
            setup.spec_locator() == first_locator(
                sample_rate as int,
                setup.spec_samples().len() as int,
            ),
    {
        let step: usize = channels as usize;
        let len: usize = samples.len();
        let mut mono: Vec<i16> = Vec::new();
        let mut i: usize = 0;
        assert(samples@.skip(0) =~= samples@);
        while i < len
            invariant
                i <= len,
                len == samples@.len(),
                step == channels,
                step >= 1,
                every_nth(samples@, step as int) == mono@ + every_nth(
                    samples@.skip(i as int),
                    step as int,
                ),
            decreases len - i,
        {
            let ghost rest = samples@.skip(i as int);
            assert(rest[0] == samples@[i as int]);
            mono.push(samples[i]);
            if len - i <= step {
                assert(every_nth(rest, step as int) =~= seq![rest[0]]);
                assert(samples@.skip(len as int).len() == 0);
                i = len;
            } else {
                assert(rest.skip(step as int) =~= samples@.skip(i + step));
                assert(every_nth(rest, step as int) =~= seq![rest[0]] + every_nth(
                    rest.skip(step as int),
                    step as int,
                ));
                i = i + step;
            }
        }
        assert(every_nth(samples@, step as int) =~= mono@);
        let locator = Locator::new(sample_rate, mono.len());
        SSTVSetup { sample_rate, samples: mono, locator }
    }

    /// The sample rate in hertz.
    pub fn sample_rate(&self) -> (rate: u32)
        ensures
            rate == self.spec_sample_rate(),
    {
        self.sample_rate
    }

    /// The samples.
    pub fn samples(&self) -> (samples: &Vec<i16>)
        ensures
            samples@ == self.spec_samples(),
    {
        &self.samples
    }

    /// The stretch of samples whose peak frequency is needed next, from its
    /// first sample up to, not including, its last; none once the search is
    /// over.
    pub fn window(&self) -> (asked: Option<(usize, usize)>)
        requires
            self.wf(),
        ensures
            match asked {
                Some((start, end)) => locator_stretch(self.spec_sample_rate(), self.spec_locator())
                    == Some((start as int, end as int)) && start <= end
                    <= self.spec_samples().len(),
                None => locator_stretch(self.spec_sample_rate(), self.spec_locator()) is None,
            },
    {
        self.locator.stretch(self.sample_rate, self.samples.len())
    }

    /// Takes the peak frequency of the stretch that `window` named.
    pub fn observe(&mut self, freq: Frequency)
        requires
            old(self).wf(),
        ensures
            final(self).wf(),
            final(self).spec_sample_rate() == old(self).spec_sample_rate(),
            final(self).spec_samples() == old(self).spec_samples(),
            final(self).spec_locator() == next_locator(
                old(self).spec_sample_rate(),
                old(self).spec_samples().len() as int,
                old(self).spec_locator(),
                freq.millihertz as int,
            ),
    {
        let len: usize = self.samples.len();
        self.locator.advance(self.sample_rate, len, freq);
    }

    /// The outcome of the search, once it is over: a decoder for the mode
    /// that the code names, at the start of the picture and with nothing read
    /// yet, or the reason why the recording cannot be decoded.
    pub fn decode(&self) -> (outcome: Option<Result<SSTVDecoder, DecodeError>>)
        requires
            self.wf(),
        ensures
            match outcome {
                None => self.spec_locator().stage == LocatorStage::Header
                    || self.spec_locator().stage == LocatorStage::Vis,
                Some(Err(reason)) => self.spec_locator().stage == LocatorStage::Failed && reason
                    == self.spec_locator().error,
                Some(Ok(decoder)) => {
                    &&& self.spec_locator().stage == LocatorStage::Ready
                    &&& decoder.wf()
                    &&& catalog(self.spec_locator().code) == Some(decoder.spec_mode())
                    &&& decoder.spec_sample_rate() == self.spec_sample_rate()
                    &&& decoder.spec_samples() == self.spec_samples()
                    &&& decoder.spec_header_end() == self.spec_locator().header_end
                    &&& decoder.spec_scan() == first_scan(
                        decoder.spec_mode(),
                        self.spec_sample_rate(),
                        self.spec_samples().len() as int,
                        image_start(self.spec_locator().header_end, self.spec_sample_rate()),
                    )
                    &&& decoder.spec_cells() == blank(decoder.spec_mode())
                },
            },
    {
        match self.locator.stage {
            LocatorStage::Header => None,
            LocatorStage::Vis => None,
            LocatorStage::Failed => Some(Err(self.locator.error)),
            LocatorStage::Ready => {
                match VIS_MAP(self.locator.code) {
                    Ok(mode) => {
                        proof {
                            lemma_catalog_geometry(self.locator.code as int);
                        }
                        Some(
                            Ok(
                                SSTVDecoder::new(
                                    mode,
                                    self.sample_rate,
                                    slice_to_vec(self.samples.as_slice()),
                                    self.locator.header_end,
                                ),
                            ),
                        )
                    },
                    Err(_) => Some(Err(DecodeError::UnsupportedMode(self.locator.code))),
                }
            },
        }
    }
}

/// The place of a walk among the cells of the grid of its mode.
pub open spec fn place(m: SpecView, s: ScanView) -> int {
    cell_index(m.chan_count as int, m.line_width as int, s.line, s.chan, s.px)
}

/// A walk never goes back: a measurement moves its place on by one cell
/// while a pixel is read, and not at all otherwise; a walk that has ended
/// stays as it is. So a cell, once read, is not written again, and what was
/// read before the samples ended stays.
pub proof fn lemma_read_cells_stay(m: SpecView, rate: int, len: int, s: ScanView, mhz: int)
    requires
        m.wf(),
        scan_wf(m, rate, len, s),
    ensures
        place(m, next_scan(m, rate, len, s, mhz)) == place(m, s) + if s.stage == Stage::Pixel {
            1int
        } else {
            0int
        },
        s.stage == Stage::Completed || s.stage == Stage::Truncated ==> next_scan(
            m,
            rate,
            len,
            s,
            mhz,
        ) == s,
{
    if s.stage == Stage::Pixel {
        lemma_next_cell(m.chan_count as int, m.line_width as int, s.line, s.chan, s.px);
    }
}

/// The place after a cell, in the order of the scan, is the next cell.
proof fn lemma_next_cell(channels: int, columns: int, line: int, chan: int, col: int)
    by (nonlinear_arith)
    requires
        0 <= line,
        0 <= chan < channels,
        0 <= col < columns,
    ensures
        cell_index(channels, columns, line, chan, col + 1) == cell_index(
            channels,
            columns,
            line,
            chan,
            col,
        ) + 1,
        col + 1 == columns ==> cell_index(channels, columns, line, chan + 1, 0) == cell_index(
            channels,
            columns,
            line,
            chan,
            col,
        ) + 1,
        col + 1 == columns && chan + 1 == channels ==> cell_index(
            channels,
            columns,
            line + 1,
            0,
            0,
        ) == cell_index(channels, columns, line, chan, col) + 1,
{
}

impl SSTVDecoder {
    /// The grid has the shape of the mode, the walk fits the mode and the
    /// samples, and no cell from the place of the walk on has been written.
    pub closed spec fn wf(&self) -> bool {
        &&& self.mode@.wf()
        &&& self.grid.spec_lines() == self.mode@.line_count
        &&& self.grid.spec_channels() == self.mode@.chan_count
        &&& self.grid.spec_columns() == self.mode@.line_width
        &&& self.grid.cells().len() == self.mode@.line_count * self.mode@.chan_count
            * self.mode@.line_width
        &&& scan_wf(self.mode@, self.sample_rate as int, self.samples@.len() as int, self.scan@)
        &&& self.index == cell_index(
            self.mode@.chan_count as int,
            self.mode@.line_width as int,
            self.scan@.line,
            self.scan@.chan,
            self.scan@.px,
        )
        &&& self.index <= self.grid.cells().len()
        &&& forall|k: int| self.index <= k < self.grid.cells().len() ==> self.grid.cells()[k] == 0
    }

    /// The mode of the recording.
    pub closed spec fn spec_mode(&self) -> SpecView {
        self.mode@
    }

    /// The sample rate in hertz.
    pub closed spec fn spec_sample_rate(&self) -> int {
        self.sample_rate as int
    }

    /// The samples.
    pub closed spec fn spec_samples(&self) -> Seq<i16> {
        self.samples@
    }

    /// Where the header ends.
    pub closed spec fn spec_header_end(&self) -> int {
        self.header_end as int
    }

    /// Where the walk over the scanlines stands.
    pub closed spec fn spec_scan(&self) -> ScanView {
        self.scan@
    }

    /// The intensities read so far, in the order of the scan.
    pub closed spec fn spec_cells(&self) -> Seq<u8> {
        self.grid.cells()
    }

    /// The place of the walk among the cells.
    pub open spec fn spec_place(&self) -> int {
        place(self.spec_mode(), self.spec_scan())
    }

    /// Whatever has been measured, the cells from the place of the walk on
    /// are as they were at the start: zero. When the samples end before the
    /// picture does, that is what the lines not reached hold.
    pub proof fn lemma_unread_cells_are_zero(&self)
        requires
            self.wf(),
        ensures
            self.spec_cells().len() == self.spec_mode().line_count * self.spec_mode().chan_count
                * self.spec_mode().line_width,
            0 <= self.spec_place() <= self.spec_cells().len(),
            forall|k: int|
                self.spec_place() <= k < self.spec_cells().len() ==> self.spec_cells()[k] == 0,
    {
    }

    fn new(mode: Spec, sample_rate: u32, samples: Vec<i16>, header_end: usize) -> (decoder:
        SSTVDecoder)
        requires
            mode@.wf(),
            header_end <= samples@.len(),
        ensures
            decoder.wf(),
            decoder.spec_mode() == mode@,
            decoder.spec_sample_rate() == sample_rate,
            decoder.spec_samples() == samples@,
            decoder.spec_header_end() == header_end,
            decoder.spec_scan() == first_scan(
                mode@,
                sample_rate as int,
                samples@.len() as int,
                image_start(header_end as int, sample_rate as int),
            ),
            decoder.spec_cells() == blank(mode@),
    {
        proof {
            let lines = mode.line_count as int;
            let channels = mode.chan_count as int;
            let columns = mode.line_width as int;
            assert(0 <= lines * channels * columns <= 3 * lines * columns) by (nonlinear_arith)
                requires
                    0 <= lines,
                    1 <= channels <= 3,
                    1 <= columns,
            ;
            assert(cell_index(channels, columns, 0, 0, 0) == 0) by (nonlinear_arith);
            assert(cell_index(channels, columns, lines, 0, 0) == lines * channels * columns)
                by (nonlinear_arith);
        }
        let grid = IntensityGrid::new(mode.line_count, mode.chan_count, mode.line_width);
        let start: u128 = header_end as u128 + samples_of(9 * VIS_BIT_SIZE, sample_rate) as u128;
        let scan = first_scan_of(&mode, sample_rate, samples.len(), start);
        assert(grid.cells() =~= blank(mode@));
        SSTVDecoder { mode, sample_rate, samples, header_end, scan, index: 0, grid }
    }

    /// The mode of the recording.
    pub fn mode(&self) -> (mode: &Spec)
        ensures
            mode@ == self.spec_mode(),
    {
        &self.mode
    }

    /// The sample rate in hertz.
    pub fn sample_rate(&self) -> (rate: u32)
        ensures
            rate == self.spec_sample_rate(),
    {
        self.sample_rate
    }

    /// The samples.
    pub fn samples(&self) -> (samples: &Vec<i16>)
        ensures
            samples@ == self.spec_samples(),
    {
        &self.samples
    }

    /// Where the header ends.
    pub fn header_end(&self) -> (end: usize)
        ensures
            end == self.spec_header_end(),
    {
        self.header_end
    }

    /// What the walk is doing: seeking a sync pulse, reading a pixel, or
    /// done, with the picture complete or cut short.
    pub fn stage(&self) -> (stage: Stage)
        ensures
            stage == self.spec_scan().stage,
    {
        self.scan.stage
    }

    /// Where the walk over the scanlines stands.
    pub fn scan(&self) -> (scan: Scan)
        ensures
            scan@ == self.spec_scan(),
    {
        self.scan
    }

    /// The intensities read so far.
    pub fn image_data(&self) -> (grid: &IntensityGrid)
        requires
            self.wf(),
        ensures
            grid.spec_lines() == self.spec_mode().line_count,
            grid.spec_channels() == self.spec_mode().chan_count,
            grid.spec_columns() == self.spec_mode().line_width,
            grid.cells() == self.spec_cells(),
    {
        &self.grid
    }

    /// The stretch of samples whose peak frequency is needed next, from its
    /// first sample up to, not including, its last; none once the picture is
    /// complete or the samples have ended.
    pub fn window(&self) -> (asked: Option<(usize, usize)>)
        requires
            self.wf(),
        ensures
            match asked {
                Some((start, end)) => stretch(
                    self.spec_mode(),
                    self.spec_sample_rate(),
                    self.spec_scan(),
                ) == Some((start as int, end as int)) && start <= end <= self.spec_samples().len(),
                None => self.spec_scan().stage == Stage::Completed || self.spec_scan().stage
                    == Stage::Truncated,
            },
    {
        let len: usize = self.samples.len();
        match self.scan.stage {
            Stage::StartSync => {
                let window: u64 = sync_window_of(&self.mode, self.sample_rate);
                let end: u128 = self.scan.probe as u128 + window as u128;
                Some((self.scan.probe, end as usize))
            },
            Stage::LineSync => {
                let window: u64 = sync_window_of(&self.mode, self.sample_rate);
                let end: u128 = self.scan.probe as u128 + window as u128;
                Some((self.scan.probe, end as usize))
            },
            Stage::Pixel => pixel_stretch_of(
                &self.mode,
                self.sample_rate,
                len,
                self.scan.cursor,
                self.scan.chan,
                self.scan.px,
            ),
            Stage::Completed => None,
            Stage::Truncated => None,
        }
    }

    /// Takes the peak frequency of the stretch that `window` named. While a
    /// pixel is read, its luminance is written to the cell of the pixel; no
    /// other cell changes. The walk moves on.
    pub fn decode_image_data(&mut self, freq: Frequency)
        requires
            old(self).wf(),
        ensures
            final(self).wf(),
            final(self).spec_mode() == old(self).spec_mode(),
            final(self).spec_sample_rate() == old(self).spec_sample_rate(),
            final(self).spec_samples() == old(self).spec_samples(),
            final(self).spec_header_end() == old(self).spec_header_end(),
            final(self).spec_scan() == next_scan(
                old(self).spec_mode(),
                old(self).spec_sample_rate(),
                old(self).spec_samples().len() as int,
                old(self).spec_scan(),
                freq.millihertz as int,
            ),
            final(self).spec_cells() == cells_after(
                old(self).spec_mode(),
                old(self).spec_scan(),
                old(self).spec_cells(),
                freq.millihertz as int,
            ),
    {
        let len: usize = self.samples.len();
        let total: usize = self.grid.len();
        let next = next_scan_of(&self.mode, self.sample_rate, len, self.scan, freq);
        proof {
            let lines = self.mode.line_count as int;
            let channels = self.mode.chan_count as int;
            let columns = self.mode.line_width as int;
            assert(cell_index(channels, columns, lines, 0, 0) == lines * channels * columns)
                by (nonlinear_arith);
            if self.scan.stage == Stage::Pixel {
                lemma_next_cell(
                    channels,
                    columns,
                    self.scan.line as int,
                    self.scan.chan as int,
                    self.scan.px as int,
                );
                lemma_cell_index_bounds(
                    lines,
                    channels,
                    columns,
                    self.scan.line as int,
                    self.scan.chan as int,
                    self.scan.px as int,
                );
            }
        }
        if self.scan.stage == Stage::Pixel {
            self.grid.put(self.index, calc_lum(freq));
            self.index = self.index + 1;
        }
        self.scan = next;
    }

    /// Renders the picture from the intensities read so far.
    pub fn draw_image(&self) -> (image: Image)
        requires
            self.wf(),
        ensures
            image.spec_height() == self.spec_mode().line_count,
            image.spec_width() == self.spec_mode().line_width,
            image.bytes() == picture(self.spec_mode(), self.spec_cells()),
            forall|x: int, y: int|
                0 <= x < self.spec_mode().line_width && 0 <= y < self.spec_mode().line_count
                    ==> #[trigger] pixel_drawn(
                    self.spec_mode(),
                    self.spec_cells(),
                    image.bytes(),
                    x,
                    y,
                ),
    {
        draw_image(&self.mode, &self.grid)
    }

    /// The picture read so far as a file: it is framed as a picture of the
    /// width and the number of lines of the mode, and holds the compressed
    /// scanlines of the picture drawn from the cells. There is no such file
    /// where the compressed data is too long for the length field of a
    /// record.
    pub fn encode_png(&self) -> (file: Option<Vec<u8>>)
        requires
            self.wf(),
        ensures
            match file {
                Some(bytes) => bytes@ == png_file(
                    self.spec_mode().line_width as u32,
                    self.spec_mode().line_count as u32,
                    zlib_stream(
                        scanlines(
                            picture(self.spec_mode(), self.spec_cells()),
                            self.spec_mode().line_width as int,
                            self.spec_mode().line_count as int,
                        ),
                    ),
                ) && framed(
                    bytes@,
                    self.spec_mode().line_width as u32,
                    self.spec_mode().line_count as u32,
                ),
                None => zlib_stream(
                    scanlines(
                        picture(self.spec_mode(), self.spec_cells()),
                        self.spec_mode().line_width as int,
                        self.spec_mode().line_count as int,
                    ),
                ).len() > u32::MAX,
            },
    {
        let image = draw_image(&self.mode, &self.grid);
        encode_png(&image)
    }
}

} // verus!
