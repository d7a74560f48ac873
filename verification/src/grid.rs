//! The intensity grid: one byte for each line, channel and column.

use vstd::prelude::*;

verus! {

/// Place of a cell among all cells, which lie in the order of the scan:
/// line by line, in a line channel by channel, in a channel column by column.
pub open spec fn cell_index(channels: int, columns: int, line: int, chan: int, col: int) -> int {
    (line * channels + chan) * columns + col
}

/// A cell of the grid has a place below the number of all cells.
pub proof fn lemma_cell_index_bounds(
    lines: int,
    channels: int,
    columns: int,
    line: int,
    chan: int,
    col: int,
)
    requires
        0 <= line < lines,
        0 <= chan < channels,
        0 <= col < columns,
    ensures
        0 <= line * channels + chan < lines * channels,
        0 <= cell_index(channels, columns, line, chan, col) < lines * channels * columns,
{
    let row = line * channels + chan;
    assert(0 <= row && row + 1 <= lines * channels) by (nonlinear_arith)
        requires
            row == line * channels + chan,
            0 <= line,
            line + 1 <= lines,
            0 <= chan < channels,
    ;
    assert(0 <= row * columns + col && row * columns + col < (lines * channels) * columns)
        by (nonlinear_arith)
        requires
            0 <= row,
            row + 1 <= lines * channels,
            0 <= col < columns,
    ;
}

/// The intensities that a decode has read: a byte for each line, channel
/// and column.
pub struct IntensityGrid {
    lines: usize,
    channels: usize,
    columns: usize,
    cells: Vec<u8>,
}

impl IntensityGrid {
    #[verifier::type_invariant]
    spec fn inv(&self) -> bool {
        self.cells@.len() == self.lines * self.channels * self.columns
    }

    /// Number of lines.
    pub closed spec fn spec_lines(&self) -> nat {
        self.lines as nat
    }

    /// Number of channels in a line.
    pub closed spec fn spec_channels(&self) -> nat {
        self.channels as nat
    }

    /// Number of columns in a channel.
    pub closed spec fn spec_columns(&self) -> nat {
        self.columns as nat
    }

    /// All cells, in the order of the scan.
    pub closed spec fn cells(&self) -> Seq<u8> {
        self.cells@
    }

    /// The cell of a line, a channel and a column.
    pub open spec fn at(&self, line: int, chan: int, col: int) -> u8 {
        self.cells()[cell_index(
            self.spec_channels() as int,
            self.spec_columns() as int,
            line,
            chan,
            col,
        )]
    }

    /// A grid of the given shape with every cell at zero.
    pub fn new(lines: usize, channels: usize, columns: usize) -> (grid: IntensityGrid)
        requires
            lines * channels * columns <= usize::MAX,
        ensures
            grid.spec_lines() == lines,
            grid.spec_channels() == channels,
            grid.spec_columns() == columns,
            grid.cells().len() == lines * channels * columns,
            forall|i: int| 0 <= i < grid.cells().len() ==> grid.cells()[i] == 0,
    {
        let ghost total: int = lines * channels * columns;
        let mut cells: Vec<u8> = Vec::new();
        let mut line: usize = 0;
        while line < lines
            invariant
                line <= lines,
                total == lines * channels * columns,
                total <= usize::MAX,
                cells@.len() == line * channels * columns,
                forall|i: int| 0 <= i < cells@.len() ==> cells@[i] == 0,
            decreases lines - line,
        {
            let mut chan: usize = 0;
            while chan < channels
                invariant
                    line < lines,
                    chan <= channels,
                    total == lines * channels * columns,
                    total <= usize::MAX,
                    cells@.len() == (line * channels + chan) * columns,
                    forall|i: int| 0 <= i < cells@.len() ==> cells@[i] == 0,
                decreases channels - chan,
            {
                let mut col: usize = 0;
                while col < columns
                    invariant
                        line < lines,
                        chan < channels,
                        col <= columns,
                        total == lines * channels * columns,
                        total <= usize::MAX,
                        cells@.len() == (line * channels + chan) * columns + col,
                        forall|i: int| 0 <= i < cells@.len() ==> cells@[i] == 0,
                    decreases columns - col,
                {
                    cells.push(0);
                    col = col + 1;
                }
                assert((line * channels + chan) * columns + columns == (line * channels + (chan
                    + 1)) * columns) by (nonlinear_arith);
                chan = chan + 1;
            }
            assert((line * channels + channels) * columns == (line + 1) * channels * columns)
                by (nonlinear_arith);
            line = line + 1;
        }
        IntensityGrid { lines, channels, columns, cells }
    }

    /// Number of lines.
    pub fn lines(&self) -> (lines: usize)
        ensures
            lines == self.spec_lines(),
    {
        self.lines
    }

    /// Number of channels in a line.
    pub fn channels(&self) -> (channels: usize)
        ensures
            channels == self.spec_channels(),
    {
        self.channels
    }

    /// Number of columns in a channel.
    pub fn columns(&self) -> (columns: usize)
        ensures
            columns == self.spec_columns(),
    {
        self.columns
    }

    /// Number of cells.
    pub fn len(&self) -> (count: usize)
        ensures
            count == self.cells().len(),
            count == self.spec_lines() * self.spec_channels() * self.spec_columns(),
    {
        proof {
            use_type_invariant(self);
        }
        self.cells.len()
    }

    /// The cell of a line, a channel and a column.
    pub fn get(&self, line: usize, chan: usize, col: usize) -> (value: u8)
        requires
            line < self.spec_lines(),
            chan < self.spec_channels(),
            col < self.spec_columns(),
        ensures
            value == self.at(line as int, chan as int, col as int),
    {
        proof {
            use_type_invariant(self);
            lemma_cell_index_bounds(
                self.lines as int,
                self.channels as int,
                self.columns as int,
                line as int,
                chan as int,
                col as int,
            );
            assert(self.lines * self.channels * self.columns >= self.lines * self.channels)
                by (nonlinear_arith)
                requires
                    self.columns >= 1,
                    self.lines * self.channels >= 0,
            ;
        }
        let count: usize = self.cells.len();
        assert(line * self.channels <= line * self.channels + chan < count);
        self.cells[(line * self.channels + chan) * self.columns + col]
    }

    /// The cell at a place in the order of the scan.
    pub fn cell(&self, index: usize) -> (value: u8)
        requires
            index < self.cells().len(),
        ensures
            value == self.cells()[index as int],
    {
        self.cells[index]
    }

    /// Writes the cell at a place in the order of the scan.
    pub fn put(&mut self, index: usize, value: u8)
        requires
            index < old(self).cells().len(),
        ensures
            final(self).cells() == old(self).cells().update(index as int, value),
            final(self).spec_lines() == old(self).spec_lines(),
            final(self).spec_channels() == old(self).spec_channels(),
            final(self).spec_columns() == old(self).spec_columns(),
    {
        proof {
            use_type_invariant(&*self);
        }
        self.cells[index] = value;
    }

    /// Writes the cell of a line, a channel and a column.
    pub fn set(&mut self, line: usize, chan: usize, col: usize, value: u8)
        requires
            line < old(self).spec_lines(),
            chan < old(self).spec_channels(),
            col < old(self).spec_columns(),
        ensures
            final(self).cells() == old(self).cells().update(
                cell_index(
                    old(self).spec_channels() as int,
                    old(self).spec_columns() as int,
                    line as int,
                    chan as int,
                    col as int,
                ),
                value,
            ),
            final(self).spec_lines() == old(self).spec_lines(),
            final(self).spec_channels() == old(self).spec_channels(),
            final(self).spec_columns() == old(self).spec_columns(),
    {
        proof {
            use_type_invariant(&*self);
            lemma_cell_index_bounds(
                self.lines as int,
                self.channels as int,
                self.columns as int,
                line as int,
                chan as int,
                col as int,
            );
            assert(self.lines * self.channels * self.columns >= self.lines * self.channels)
                by (nonlinear_arith)
                requires
                    self.columns >= 1,
                    self.lines * self.channels >= 0,
            ;
        }
        let count: usize = self.cells.len();
        assert(line * self.channels <= line * self.channels + chan < count);
        let index: usize = (line * self.channels + chan) * self.columns + col;
        self.cells[index] = value;
    }
}

} // verus!
