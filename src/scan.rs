//! The full scan of a raster, line by line from the top, reporting each
//! cell with its raster row (counted from the bottom) and column.
//!
//! Like the reader, the scan does not touch the byte source: it asks for
//! the next line ([`Step::NeedLine`]) and takes its parsed values back.
use vstd::prelude::*;
use crate::header::EsriASCIIRasterHeader;
use crate::reader::{line_of_row, EsriASCIIReader, GridError};

verus! {

/// What the scan does next.
#[derive(Debug)]
pub enum Step<V> {
    /// The cell at (row, column), with its value.
    Item(usize, usize, V),
    /// The current line is used up: hand over the next one.
    NeedLine,
    /// Every cell has been reported.
    Done,
}

/// The cell that a full scan of an `nrows` by `ncols` raster reports `k`-th:
/// column `k % ncols` of line `k / ncols`, that is of raster row
/// `nrows - 1 - k / ncols`.
pub open spec fn scan_cell(nrows: int, ncols: int, k: int) -> (int, int) {
    (line_of_row(nrows, k / ncols), k % ncols)
}

/// The number of cells that a full scan reports before cell (`row`, `col`).
pub open spec fn scan_index(nrows: int, ncols: int, row: int, col: int) -> int {
    line_of_row(nrows, row) * ncols + col
}

/// A full scan in progress: `line` lines have been handed over, the last of
/// them is `values`, and its cells before `col` have been reported.
pub struct EsriASCIIRasterIntoIterator<V> {
    pub header: EsriASCIIRasterHeader,
    pub line: usize,
    pub col: usize,
    pub values: Vec<V>,
    /// Every line handed over so far, top line first.
    pub lines: Ghost<Seq<Seq<V>>>,
}

impl<V: Copy> EsriASCIIRasterIntoIterator<V> {
    pub open spec fn wf(&self) -> bool {
        &&& self.header.wf()
        &&& self.line <= self.header.nrows
        &&& self.col <= self.header.ncols
        &&& self.line == 0 ==> self.col == 0
        &&& self.lines@.len() == self.line
        &&& self.line > 0 ==> self.values@.len() == self.header.ncols && self.lines@.last() == self.values@
        &&& forall|j: int| 0 <= j < self.lines@.len() ==> (#[trigger] self.lines@[j]).len() == self.header.ncols
    }

    /// How many cells have been reported.
    pub open spec fn position(&self) -> int {
        if self.line == 0 {
            0
        } else {
            (self.line - 1) * self.header.ncols + self.col
        }
    }

    /// The scan waits for the next line.
    pub open spec fn needs_line(&self) -> bool {
        self.line < self.header.nrows && (self.line == 0 || self.col == self.header.ncols)
    }

    /// A scan of the raster that `header` describes, before its first line.
    pub fn new(header: EsriASCIIRasterHeader) -> (r: Self)
        requires
            header.wf(),
        ensures
            r.wf(),
            r.header == header,
            r.position() == 0,
            r.lines@.len() == 0,
    {
        EsriASCIIRasterIntoIterator { header, line: 0, col: 0, values: Vec::new(), lines: Ghost(Seq::empty()) }
    }

    /// The next cell, or a request for the next line, or the end.
    ///
    /// Cells come in scan order: the `k`-th one reported is
    /// [`scan_cell`]`(nrows, ncols, k)`, with its value from the line that
    /// was handed over for it.
    pub fn next(&mut self) -> (r: Step<V>)
        requires
            old(self).wf(),
        ensures
            final(self).wf(),
            final(self).header == old(self).header,
            final(self).lines@ == old(self).lines@,
            old(self).line > 0 && old(self).col < old(self).header.ncols ==> {
                let k = old(self).position();
                let (row, col) = scan_cell(old(self).header.nrows as int, old(self).header.ncols as int, k);
                &&& r matches Step::Item(rr, cc, v) && rr == row && cc == col
                    && v == old(self).lines@[k / old(self).header.ncols as int][col]
                &&& final(self).position() == k + 1
            },
            !(old(self).line > 0 && old(self).col < old(self).header.ncols) ==> {
                &&& *final(self) == *old(self)
                &&& old(self).needs_line() ==> r is NeedLine
                &&& !old(self).needs_line() ==> r is Done && old(self).position() == old(self).header.nrows
                    * old(self).header.ncols
            },
    {
        if self.line > 0 && self.col < self.header.ncols {
            let c = self.col;
            let v = self.values[c];
            let row = self.header.nrows - self.line;
            proof {
                let n = self.header.ncols as int;
                vstd::arithmetic::div_mod::lemma_fundamental_div_mod_converse(
                    self.position(),
                    n,
                    self.line - 1,
                    c as int,
                );
            }
            self.col = c + 1;
            Step::Item(row, c, v)
        } else if self.line < self.header.nrows {
            Step::NeedLine
        } else {
            proof {
                assert((self.line - 1) * self.header.ncols + self.header.ncols == self.line
                    * self.header.ncols) by (nonlinear_arith);
            }
            Step::Done
        }
    }

    /// Takes the parsed values of the next line. Fails with `MalformedRow`,
    /// changing nothing, unless there is one value per column.
    pub fn feed_line(&mut self, values: Vec<V>) -> (r: Result<(), GridError>)
        requires
            old(self).wf(),
            old(self).needs_line(),
        ensures
            final(self).wf(),
            final(self).header == old(self).header,
            values@.len() != old(self).header.ncols ==> r == Err::<(), GridError>(GridError::MalformedRow)
                && *final(self) == *old(self),
            values@.len() == old(self).header.ncols ==> {
                &&& r is Ok
                &&& final(self).lines@ == old(self).lines@.push(values@)
                &&& final(self).line == old(self).line + 1
                &&& final(self).position() == old(self).position()
            },
    {
        if values.len() != self.header.ncols {
            return Err(GridError::MalformedRow);
        }
        proof {
            if self.line > 0 {
                assert((self.line - 1) * self.header.ncols + self.header.ncols == self.line
                    * self.header.ncols) by (nonlinear_arith);
            }
        }
        self.lines = Ghost(self.lines@.push(values@));
        self.values = values;
        self.line = self.line + 1;
        self.col = 0;
        Ok(())
    }
}

impl<V: Copy> EsriASCIIReader<V> {
    /// Turns the reader into a full scan of its raster, which starts at the
    /// data start offset and uses neither the index nor the cache.
    pub fn into_iter(self) -> (r: EsriASCIIRasterIntoIterator<V>)
        requires
            self.wf(),
        ensures
            r.wf(),
            r.header == self.header,
            r.position() == 0,
            r.lines@.len() == 0,
    {
        EsriASCIIRasterIntoIterator::new(self.header)
    }
}

} // verus!
