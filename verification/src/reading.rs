//! What a walk over the scanlines reads.
//!
//! The cells of the grid after a number of measurements, the frequencies
//! being those that an oracle gives for each stretch asked for, and what
//! holds of them whatever the oracle says: a cell holds the luminance of what
//! was heard over the stretch of its pixel, a cell once read stays, a cell not
//! reached is zero, and samples that end early change nothing of what was
//! read before the walk came upon their end.

use crate::decode::{lemma_read_cells_stay, place};
use crate::freq::{lemma_luminance_clamped, luminance, SYNC_THRESHOLD};
use crate::grid::{cell_index, lemma_cell_index_bounds};
use crate::modes::SpecView;
use crate::scan::{
    first_scan, lemma_walk, next_scan, scan_wf, stretch, sync_window, walk, ScanView, Stage,
    CURSOR_LIMIT,
};
use vstd::prelude::*;

verus! {

/// The number of cells of the grid of a mode.
pub open spec fn cell_count(m: SpecView) -> int {
    (m.line_count * m.chan_count * m.line_width) as int
}

/// The grid of a mode before anything is read: every cell is zero.
pub open spec fn blank(m: SpecView) -> Seq<u8> {
    Seq::new(cell_count(m) as nat, |k: int| 0u8)
}

/// The cells after one measurement: while a pixel is read, its cell takes
/// the luminance of the frequency.
pub open spec fn cells_after(m: SpecView, s: ScanView, cells: Seq<u8>, mhz: int) -> Seq<u8> {
    if s.stage == Stage::Pixel {
        cells.update(place(m, s), luminance(mhz) as u8)
    } else {
        cells
    }
}

/// The cells after a number of measurements, the frequencies being those
/// that `heard` gives for each stretch asked for.
pub open spec fn cells_read(
    m: SpecView,
    rate: int,
    len: int,
    image_start: int,
    heard: spec_fn(int, int) -> int,
    measurements: nat,
) -> Seq<u8>
    decreases measurements,
{
    if measurements == 0 {
        blank(m)
    } else {
        let before = walk(m, rate, len, image_start, heard, (measurements - 1) as nat);
        let so_far = cells_read(m, rate, len, image_start, heard, (measurements - 1) as nat);
        match stretch(m, rate, before) {
            Some((start, end)) => cells_after(m, before, so_far, heard(start, end)),
            None => so_far,
        }
    }
}

/// Whether a measurement brings a walk upon the end of the samples: a
/// search for a sync pulse is given up there, or the stretch that comes up
/// next reaches beyond them.
pub open spec fn meets_end(m: SpecView, rate: int, len: int, s: ScanView, mhz: int) -> bool {
    ||| (s.stage == Stage::StartSync || s.stage == Stage::LineSync) && mhz <= SYNC_THRESHOLD
        && s.probe + 1 + sync_window(m, rate) > len
    ||| next_scan(m, rate, len, s, mhz).stage == Stage::Truncated
}

/// Whether a walk has kept clear of the end of the samples for a number of
/// measurements.
pub open spec fn clear_of_end(
    m: SpecView,
    rate: int,
    len: int,
    image_start: int,
    heard: spec_fn(int, int) -> int,
    measurements: nat,
) -> bool
    decreases measurements,
{
    if measurements == 0 {
        first_scan(m, rate, len, image_start).stage != Stage::Truncated
    } else {
        let before = walk(m, rate, len, image_start, heard, (measurements - 1) as nat);
        clear_of_end(m, rate, len, image_start, heard, (measurements - 1) as nat) && match stretch(
            m,
            rate,
            before,
        ) {
            Some((start, end)) => !meets_end(m, rate, len, before, heard(start, end)),
            None => true,
        }
    }
}

/// The place of a walk lies among the cells, or just behind the last when
/// the picture is complete.
pub proof fn lemma_place_bounds(m: SpecView, rate: int, len: int, s: ScanView)
    requires
        m.wf(),
        scan_wf(m, rate, len, s),
    ensures
        0 <= place(m, s) <= cell_count(m),
        s.stage == Stage::Pixel ==> place(m, s) < cell_count(m),
        s.stage == Stage::Completed ==> place(m, s) == cell_count(m),
{
    let lines = m.line_count as int;
    let channels = m.chan_count as int;
    let columns = m.line_width as int;
    assert(cell_index(channels, columns, 0, 0, 0) == 0) by (nonlinear_arith);
    assert(cell_index(channels, columns, lines, 0, 0) == lines * channels * columns)
        by (nonlinear_arith);
    assert(0 <= lines * channels * columns) by (nonlinear_arith)
        requires
            0 <= lines,
            0 <= channels,
            0 <= columns,
    ;
    if s.line < lines && s.chan < channels && s.px < columns {
        lemma_cell_index_bounds(lines, channels, columns, s.line, s.chan, s.px);
    }
}

/// Whatever the frequencies and however many the measurements, the grid
/// keeps its size, and every cell from the place of the walk on is zero.
/// When the samples end before the picture does, that is what the lines not
/// reached hold.
pub proof fn lemma_unread_cells(
    m: SpecView,
    rate: int,
    len: int,
    image_start: int,
    heard: spec_fn(int, int) -> int,
    measurements: nat,
)
    requires
        m.wf(),
        0 <= rate <= u32::MAX,
        0 <= len <= u64::MAX,
        0 <= image_start <= CURSOR_LIMIT,
    ensures
        cells_read(m, rate, len, image_start, heard, measurements).len() == cell_count(m),
        forall|k: int|
            place(m, walk(m, rate, len, image_start, heard, measurements)) <= k < cell_count(m)
                ==> cells_read(m, rate, len, image_start, heard, measurements)[k] == 0,
    decreases measurements,
{
    lemma_walk(m, rate, len, image_start, heard, measurements);
    lemma_place_bounds(m, rate, len, walk(m, rate, len, image_start, heard, measurements));
    if measurements > 0 {
        let before = walk(m, rate, len, image_start, heard, (measurements - 1) as nat);
        lemma_unread_cells(m, rate, len, image_start, heard, (measurements - 1) as nat);
        lemma_walk(m, rate, len, image_start, heard, (measurements - 1) as nat);
        lemma_place_bounds(m, rate, len, before);
        match stretch(m, rate, before) {
            Some((start, end)) => {
                lemma_read_cells_stay(m, rate, len, before, heard(start, end));
            },
            None => {},
        }
    }
}

/// A cell once read stays: measurements that follow change no cell before
/// the place of the walk, and the walk never goes back. A walk that is
/// complete or has come to the end of the samples stays as it is, and so do
/// the cells.
pub proof fn lemma_read_cells(
    m: SpecView,
    rate: int,
    len: int,
    image_start: int,
    heard: spec_fn(int, int) -> int,
    measurements: nat,
    later: nat,
)
    requires
        m.wf(),
        0 <= rate <= u32::MAX,
        0 <= len <= u64::MAX,
        0 <= image_start <= CURSOR_LIMIT,
        measurements <= later,
    ensures
        place(m, walk(m, rate, len, image_start, heard, measurements)) <= place(
            m,
            walk(m, rate, len, image_start, heard, later),
        ),
        forall|k: int|
            0 <= k < place(m, walk(m, rate, len, image_start, heard, measurements))
                ==> cells_read(m, rate, len, image_start, heard, later)[k] == cells_read(
                m,
                rate,
                len,
                image_start,
                heard,
                measurements,
            )[k],
        stretch(m, rate, walk(m, rate, len, image_start, heard, measurements)) is None ==> walk(
            m,
            rate,
            len,
            image_start,
            heard,
            later,
        ) == walk(m, rate, len, image_start, heard, measurements) && cells_read(
            m,
            rate,
            len,
            image_start,
            heard,
            later,
        ) == cells_read(m, rate, len, image_start, heard, measurements),
    decreases later,
{
    if measurements < later {
        let before = walk(m, rate, len, image_start, heard, (later - 1) as nat);
        lemma_read_cells(m, rate, len, image_start, heard, measurements, (later - 1) as nat);
        lemma_walk(m, rate, len, image_start, heard, (later - 1) as nat);
        lemma_unread_cells(m, rate, len, image_start, heard, (later - 1) as nat);
        lemma_place_bounds(m, rate, len, before);
        match stretch(m, rate, before) {
            Some((start, end)) => {
                lemma_read_cells_stay(m, rate, len, before, heard(start, end));
            },
            None => {},
        }
    }
}

/// A cell holds the luminance of the frequency that was heard over the
/// stretch of its pixel, whatever is measured afterwards.
pub proof fn lemma_cell_heard(
    m: SpecView,
    rate: int,
    len: int,
    image_start: int,
    heard: spec_fn(int, int) -> int,
    measurements: nat,
    later: nat,
)
    requires
        m.wf(),
        0 <= rate <= u32::MAX,
        0 <= len <= u64::MAX,
        0 <= image_start <= CURSOR_LIMIT,
        measurements < later,
        walk(m, rate, len, image_start, heard, measurements).stage == Stage::Pixel,
    ensures
        match stretch(m, rate, walk(m, rate, len, image_start, heard, measurements)) {
            Some((start, end)) => cells_read(m, rate, len, image_start, heard, later)[place(
                m,
                walk(m, rate, len, image_start, heard, measurements),
            )] == luminance(heard(start, end)),
            None => false,
        },
{
    let at = walk(m, rate, len, image_start, heard, measurements);
    let next = (measurements + 1) as nat;
    lemma_walk(m, rate, len, image_start, heard, measurements);
    lemma_unread_cells(m, rate, len, image_start, heard, measurements);
    lemma_place_bounds(m, rate, len, at);
    match stretch(m, rate, at) {
        Some((start, end)) => {
            lemma_read_cells_stay(m, rate, len, at, heard(start, end));
            lemma_luminance_clamped(heard(start, end));
            assert(walk(m, rate, len, image_start, heard, next) == next_scan(
                m,
                rate,
                len,
                at,
                heard(start, end),
            ));
            assert(cells_read(m, rate, len, image_start, heard, next)[place(m, at)] == luminance(
                heard(start, end),
            ));
            lemma_read_cells(m, rate, len, image_start, heard, next, later);
        },
        None => {},
    }
}

/// Whether the pixel of a cell is the one under measurement after a number
/// of measurements.
pub open spec fn reads_cell(
    m: SpecView,
    rate: int,
    len: int,
    image_start: int,
    heard: spec_fn(int, int) -> int,
    measurements: nat,
    index: int,
) -> bool {
    let at = walk(m, rate, len, image_start, heard, measurements);
    at.stage == Stage::Pixel && place(m, at) == index
}

/// The luminance of what is heard over the stretch that the walk asks for
/// after a number of measurements.
pub open spec fn luminance_heard(
    m: SpecView,
    rate: int,
    len: int,
    image_start: int,
    heard: spec_fn(int, int) -> int,
    measurements: nat,
) -> int {
    match stretch(m, rate, walk(m, rate, len, image_start, heard, measurements)) {
        Some((start, end)) => luminance(heard(start, end)),
        None => 0,
    }
}

/// The walk starts at the first cell.
pub proof fn lemma_first_place(m: SpecView, rate: int, len: int, image_start: int)
    ensures
        place(m, first_scan(m, rate, len, image_start)) == 0,
{
    assert(cell_index(m.chan_count as int, m.line_width as int, 0, 0, 0) == 0)
        by (nonlinear_arith);
}

/// One measurement leaves the cells before the place of the walk as they
/// are, and fills the cell at its place while a pixel is read.
proof fn lemma_cell_step(
    m: SpecView,
    rate: int,
    len: int,
    s: ScanView,
    cells: Seq<u8>,
    mhz: int,
    index: int,
)
    requires
        m.wf(),
        scan_wf(m, rate, len, s),
        cells.len() == cell_count(m),
        0 <= index < place(m, next_scan(m, rate, len, s, mhz)),
    ensures
        index < place(m, s) ==> cells_after(m, s, cells, mhz)[index] == cells[index],
        index >= place(m, s) ==> s.stage == Stage::Pixel && index == place(m, s) && cells_after(
            m,
            s,
            cells,
            mhz,
        )[index] == luminance(mhz),
{
    lemma_read_cells_stay(m, rate, len, s, mhz);
    lemma_place_bounds(m, rate, len, s);
    lemma_luminance_clamped(mhz);
}

/// The cells are read in their order and none is left out: every cell
/// before the place of the walk was under measurement once, and holds the
/// luminance of what was heard over the stretch of its pixel then.
pub proof fn lemma_every_cell_heard(
    m: SpecView,
    rate: int,
    len: int,
    image_start: int,
    heard: spec_fn(int, int) -> int,
    measurements: nat,
    index: int,
)
    requires
        m.wf(),
        0 <= rate <= u32::MAX,
        0 <= len <= u64::MAX,
        0 <= image_start <= CURSOR_LIMIT,
        0 <= index < place(m, walk(m, rate, len, image_start, heard, measurements)),
    ensures
        exists|earlier: nat|
            earlier < measurements && #[trigger] reads_cell(
                m,
                rate,
                len,
                image_start,
                heard,
                earlier,
                index,
            ) && cells_read(m, rate, len, image_start, heard, measurements)[index]
                == luminance_heard(m, rate, len, image_start, heard, earlier),
    decreases measurements,
{
    if measurements == 0 {
        lemma_first_place(m, rate, len, image_start);
    } else {
        let last = (measurements - 1) as nat;
        let before = walk(m, rate, len, image_start, heard, last);
        let so_far = cells_read(m, rate, len, image_start, heard, last);
        lemma_walk(m, rate, len, image_start, heard, last);
        lemma_unread_cells(m, rate, len, image_start, heard, last);
        match stretch(m, rate, before) {
            Some((start, end)) => {
                lemma_cell_step(m, rate, len, before, so_far, heard(start, end), index);
            },
            None => {},
        }
        if index < place(m, before) {
            lemma_every_cell_heard(m, rate, len, image_start, heard, last, index);
            let earlier = choose|earlier: nat|
                earlier < last && #[trigger] reads_cell(
                    m,
                    rate,
                    len,
                    image_start,
                    heard,
                    earlier,
                    index,
                ) && so_far[index] == luminance_heard(m, rate, len, image_start, heard, earlier);
            assert(reads_cell(m, rate, len, image_start, heard, earlier, index));
        } else {
            assert(reads_cell(m, rate, len, image_start, heard, last, index));
        }
    }
}

/// A measurement that does not bring the walk upon the end of the samples
/// moves it as it would with more samples behind them.
pub proof fn lemma_step_before_end(
    m: SpecView,
    rate: int,
    len: int,
    longer: int,
    s: ScanView,
    mhz: int,
)
    requires
        len <= longer,
        !meets_end(m, rate, len, s, mhz),
    ensures
        next_scan(m, rate, len, s, mhz) == next_scan(m, rate, longer, s, mhz),
        !meets_end(m, rate, longer, s, mhz),
{
}

/// Samples that end early read like the whole of them up to their end:
/// while the walk over the shorter samples keeps clear of their end, it is
/// the walk over the longer ones, and the cells read are the same.
pub proof fn lemma_cut_short(
    m: SpecView,
    rate: int,
    len: int,
    longer: int,
    image_start: int,
    heard: spec_fn(int, int) -> int,
    measurements: nat,
)
    requires
        len <= longer,
        clear_of_end(m, rate, len, image_start, heard, measurements),
    ensures
        walk(m, rate, len, image_start, heard, measurements) == walk(
            m,
            rate,
            longer,
            image_start,
            heard,
            measurements,
        ),
        cells_read(m, rate, len, image_start, heard, measurements) == cells_read(
            m,
            rate,
            longer,
            image_start,
            heard,
            measurements,
        ),
        clear_of_end(m, rate, longer, image_start, heard, measurements),
    decreases measurements,
{
    if measurements > 0 {
        let before = walk(m, rate, len, image_start, heard, (measurements - 1) as nat);
        lemma_cut_short(m, rate, len, longer, image_start, heard, (measurements - 1) as nat);
        match stretch(m, rate, before) {
            Some((start, end)) => {
                lemma_step_before_end(m, rate, len, longer, before, heard(start, end));
            },
            None => {},
        }
    }
}

} // verus!
