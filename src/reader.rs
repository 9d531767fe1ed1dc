//! Random access to the cells of a raster: the row offset index, the row
//! cache, and the choice of how to reach a row that is not cached yet.
//!
//! The reader never touches the byte source. It says where the caller has
//! to read ([`Lookup`]) and takes the parsed row back ([`EsriASCIIReader::store_row`]).
use vstd::prelude::*;
use crate::header::EsriASCIIRasterHeader;

verus! {

/// Why a cell could not be served.
#[derive(Clone, Copy, Debug, PartialEq, Eq, Structural)]
pub enum GridError {
    /// The row or the column is outside the raster.
    OutOfBounds,
    /// The data section has fewer lines than the header declares.
    UnexpectedEof,
    /// A data line does not hold exactly one value per column.
    MalformedRow,
}

/// What it takes to serve a cell.
#[derive(Debug)]
pub enum Lookup<V> {
    /// The row is cached: here is the value.
    Value(V),
    /// Read the one line that starts at this offset.
    ReadLineAt(u64),
    /// Go to `start`, pass over `skip` lines and read the next one.
    ScanFrom { start: u64, skip: usize },
}

/// Sum of the first `k` line lengths.
pub open spec fn prefix_sum(lens: Seq<u64>, k: int) -> int
    decreases k,
{
    if k <= 0 {
        0
    } else {
        prefix_sum(lens, k - 1) + lens[k - 1]
    }
}

/// The physical line (counted from the top of the data section) that holds
/// raster row `row` (counted from the bottom).
pub open spec fn line_of_row(nrows: int, row: int) -> int {
    nrows - 1 - row
}

/// The query state of a raster: its header, where its data starts, the
/// start offset of each data line once indexed (top line first), and the
/// rows parsed so far (bottom row first).
pub struct EsriASCIIReader<V> {
    pub header: EsriASCIIRasterHeader,
    pub data_start: u64,
    pub line_starts: Vec<u64>,
    pub rows: Vec<Option<Vec<V>>>,
}

impl<V: Copy> EsriASCIIReader<V> {
    pub open spec fn wf(&self) -> bool {
        &&& self.header.wf()
        &&& self.rows@.len() == self.header.nrows
        &&& (self.line_starts@.len() == 0 || self.line_starts@.len() == self.header.nrows)
        &&& forall|r: int|
            0 <= r < self.rows@.len() && (#[trigger] self.rows@[r]).is_some() ==> self.rows@[r].unwrap()@.len()
                == self.header.ncols
    }

    pub open spec fn indexed(&self) -> bool {
        self.line_starts@.len() > 0
    }

    pub open spec fn cached(&self, row: int) -> bool {
        self.rows@[row].is_some()
    }

    /// The value of a cached cell.
    pub open spec fn cached_value(&self, row: int, col: int) -> V {
        self.rows@[row].unwrap()@[col]
    }

    /// How cell (`row`, `col`) is served in this state.
    pub open spec fn lookup_spec(&self, row: usize, col: usize) -> Result<Lookup<V>, GridError> {
        if !(row < self.header.nrows && col < self.header.ncols) {
            Err(GridError::OutOfBounds)
        } else if self.cached(row as int) {
            Ok(Lookup::Value(self.cached_value(row as int, col as int)))
        } else if self.indexed() {
            Ok(Lookup::ReadLineAt(self.line_starts@[line_of_row(self.header.nrows as int, row as int)]))
        } else {
            Ok(
                Lookup::ScanFrom {
                    start: self.data_start,
                    skip: line_of_row(self.header.nrows as int, row as int) as usize,
                },
            )
        }
    }

    /// A reader for a raster whose data rows start at `data_start`, with no
    /// index and nothing cached.
    pub fn from_header(header: EsriASCIIRasterHeader, data_start: u64) -> (r: Self)
        requires
            header.wf(),
        ensures
            r.wf(),
            r.header == header,
            r.data_start == data_start,
            !r.indexed(),
            forall|row: int| 0 <= row < header.nrows ==> !r.cached(row),
    {
        let n = header.nrows;
        let mut rows: Vec<Option<Vec<V>>> = Vec::new();
        let mut k: usize = 0;
        while k < n
            invariant
                k <= n,
                rows@.len() == k,
                forall|r: int| 0 <= r < k ==> (#[trigger] rows@[r]).is_none(),
            decreases n - k,
        {
            rows.push(None);
            k = k + 1;
        }
        EsriASCIIReader { header, data_start, line_starts: Vec::new(), rows }
    }

    /// Whether the row offset index has been built.
    pub fn is_indexed(&self) -> (r: bool)
        ensures
            r == self.indexed(),
    {
        self.line_starts.len() > 0
    }

    /// Builds the row offset index from the byte lengths of the data lines,
    /// terminators included, as they were read one after another from the
    /// start of the data section. Line `k` then starts at `data_start` plus
    /// the lengths of the lines before it.
    ///
    /// Does nothing when the index exists. Fails with `UnexpectedEof`, and
    /// changes nothing, when fewer lengths than rows are given.
    pub fn build_index(&mut self, line_lens: &[u64]) -> (r: Result<(), GridError>)
        requires
            old(self).wf(),
            old(self).data_start + prefix_sum(line_lens@, old(self).header.nrows as int) <= u64::MAX,
        ensures
            final(self).wf(),
            final(self).header == old(self).header,
            final(self).data_start == old(self).data_start,
            final(self).rows@ == old(self).rows@,
            old(self).indexed() ==> r is Ok && final(self).line_starts@ == old(self).line_starts@,
            !old(self).indexed() && line_lens@.len() < old(self).header.nrows ==> r == Err::<(), GridError>(
                GridError::UnexpectedEof,
            ) && final(self).line_starts@ == old(self).line_starts@,
            !old(self).indexed() && line_lens@.len() >= old(self).header.nrows ==> {
                &&& r is Ok
                &&& final(self).indexed()
                &&& forall|k: int|
                    0 <= k < old(self).header.nrows ==> #[trigger] final(self).line_starts@[k] == old(self).data_start
                        + prefix_sum(line_lens@, k)
            },
    {
        if self.line_starts.len() > 0 {
            return Ok(());
        }
        let n = self.header.nrows;
        if line_lens.len() < n {
            return Err(GridError::UnexpectedEof);
        }
        let mut starts: Vec<u64> = Vec::new();
        let mut pos: u64 = self.data_start;
        let mut k: usize = 0;
        while k < n
            invariant
                k <= n <= line_lens@.len(),
                starts@.len() == k,
                pos == self.data_start + prefix_sum(line_lens@, k as int),
                self.data_start + prefix_sum(line_lens@, n as int) <= u64::MAX,
                forall|j: int| 0 <= j < k ==> #[trigger] starts@[j] == self.data_start + prefix_sum(line_lens@, j),
            decreases n - k,
        {
            starts.push(pos);
            proof {
                lemma_prefix_sum_monotone(line_lens@, k as int + 1, n as int);
            }
            pos = pos + line_lens[k];
            k = k + 1;
        }
        self.line_starts = starts;
        Ok(())
    }

    /// Says how to serve cell (`row`, `col`), counted from the bottom-left
    /// cell: from the cache, by one read at the indexed offset of its line,
    /// or by a scan from the start of the data section.
    pub fn get_index(&self, row: usize, col: usize) -> (r: Result<Lookup<V>, GridError>)
        requires
            self.wf(),
        ensures
            r == self.lookup_spec(row, col),
    {
        if row >= self.header.nrows || col >= self.header.ncols {
            return Err(GridError::OutOfBounds);
        }
        match &self.rows[row] {
            Some(values) => Ok(Lookup::Value(values[col])),
            None => {
                let line = self.header.nrows - 1 - row;
                if self.line_starts.len() > 0 {
                    Ok(Lookup::ReadLineAt(self.line_starts[line]))
                } else {
                    Ok(Lookup::ScanFrom { start: self.data_start, skip: line })
                }
            },
        }
    }

    /// Takes the parsed values of row `row` (the line that [`Self::get_index`]
    /// pointed to), caches them, and gives the value in column `col`.
    /// Fails with `MalformedRow`, caching nothing, unless there is one value
    /// per column.
    pub fn store_row(&mut self, row: usize, col: usize, values: Vec<V>) -> (r: Result<V, GridError>)
        requires
            old(self).wf(),
            row < old(self).header.nrows,
            col < old(self).header.ncols,
        ensures
            final(self).wf(),
            final(self).header == old(self).header,
            final(self).data_start == old(self).data_start,
            final(self).line_starts@ == old(self).line_starts@,
            values@.len() != old(self).header.ncols ==> r == Err::<V, GridError>(GridError::MalformedRow)
                && final(self).rows@ == old(self).rows@,
            values@.len() == old(self).header.ncols ==> r == Ok::<V, GridError>(values@[col as int])
                && final(self).rows@ == old(self).rows@.update(row as int, Some(values)),
    {
        if values.len() != self.header.ncols {
            return Err(GridError::MalformedRow);
        }
        let v = values[col];
        self.rows.set(row, Some(values));
        Ok(v)
    }
}

/// The cell along one axis that holds a point whose offset from the origin,
/// in cells, has floor `floor`: points on or past the far edge fall in the
/// last cell.
pub open spec fn clamp_cell(floor: int, n: int) -> int {
    if floor < n - 1 {
        floor
    } else {
        n - 1
    }
}

/// First cell along one axis of the two by two block used to interpolate at
/// a point whose offset from the origin, in cells, has floor `floor`: the
/// last full block is reused at the far edge.
pub open spec fn clamp_block(floor: int, n: int) -> int {
    if floor < n - 2 {
        floor
    } else {
        n - 2
    }
}

impl<V: Copy> EsriASCIIReader<V> {
    /// The cell (`row`, `col`) that holds a point inside the raster, from the
    /// floors of its offsets from the origin in cells.
    pub fn cell_of(&self, row_floor: usize, col_floor: usize) -> (r: (usize, usize))
        requires
            self.wf(),
        ensures
            r.0 == clamp_cell(row_floor as int, self.header.nrows as int),
            r.1 == clamp_cell(col_floor as int, self.header.ncols as int),
            r.0 < self.header.nrows && r.1 < self.header.ncols,
    {
        let row = if row_floor < self.header.nrows - 1 {
            row_floor
        } else {
            self.header.nrows - 1
        };
        let col = if col_floor < self.header.ncols - 1 {
            col_floor
        } else {
            self.header.ncols - 1
        };
        (row, col)
    }

    /// The lower-left cell (`row`, `col`) of the two by two block used to
    /// interpolate at a point inside the raster, from the floors of its
    /// offsets from the origin in cells. `None` when the raster is narrower
    /// or lower than two cells, where there is no such block.
    pub fn block_of(&self, row_floor: usize, col_floor: usize) -> (r: Option<(usize, usize)>)
        requires
            self.wf(),
        ensures
            (self.header.nrows < 2 || self.header.ncols < 2) ==> r.is_none(),
            (self.header.nrows >= 2 && self.header.ncols >= 2) ==> r == Some::<(usize, usize)>(
                (
                    clamp_block(row_floor as int, self.header.nrows as int) as usize,
                    clamp_block(col_floor as int, self.header.ncols as int) as usize,
                ),
            ),
            r matches Some((row, col)) ==> row + 1 < self.header.nrows && col + 1 < self.header.ncols,
    {
        if self.header.nrows < 2 || self.header.ncols < 2 {
            return None;
        }
        let row = if row_floor < self.header.nrows - 2 {
            row_floor
        } else {
            self.header.nrows - 2
        };
        let col = if col_floor < self.header.ncols - 2 {
            col_floor
        } else {
            self.header.ncols - 2
        };
        Some((row, col))
    }
}

proof fn lemma_prefix_sum_monotone(lens: Seq<u64>, j: int, k: int)
    requires
        0 <= j <= k,
    ensures
        prefix_sum(lens, j) <= prefix_sum(lens, k),
    decreases k - j,
{
    if j < k {
        lemma_prefix_sum_monotone(lens, j, k - 1);
    }
}

} // verus!
