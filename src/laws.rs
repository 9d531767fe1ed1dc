//! Laws that relate the operations of the reader and of the full scan.
use vstd::prelude::*;
use crate::header::line_start;
use crate::reader::{clamp_block, clamp_cell, line_of_row, prefix_sum, EsriASCIIReader, GridError, Lookup};
use crate::scan::{scan_cell, scan_index};
use crate::text::next_line;

verus! {

/// The offset, from the start of the data section `d`, of the line that a
/// lookup of a reader whose data starts at `data_start` reads; `None` for a
/// value served from the cache.
pub open spec fn lookup_line<V>(d: Seq<u8>, data_start: int, l: Lookup<V>) -> Option<int> {
    match l {
        Lookup::Value(_) => None,
        Lookup::ReadLineAt(o) => Some(o - data_start),
        Lookup::ScanFrom { start, skip } => Some(start - data_start + line_start(d, skip as nat)),
    }
}

/// `lens` are the lengths of the lines of `d`, terminators included, in the
/// order in which they are read from its start.
pub open spec fn line_lengths_of(d: Seq<u8>, lens: Seq<u64>) -> bool {
    forall|j: int|
        0 <= j < lens.len() ==> #[trigger] lens[j] == next_line(d, line_start(d, j as nat)) - line_start(
            d,
            j as nat,
        )
}

/// Adding up the lengths of the first `k` lines gives where line `k` starts.
pub proof fn lemma_prefix_sum_is_line_start(d: Seq<u8>, lens: Seq<u64>, k: int)
    requires
        line_lengths_of(d, lens),
        0 <= k <= lens.len(),
    ensures
        prefix_sum(lens, k) == line_start(d, k as nat),
    decreases k,
{
    if k > 0 {
        lemma_prefix_sum_is_line_start(d, lens, k - 1);
        assert(lens[k - 1] == next_line(d, line_start(d, (k - 1) as nat)) - line_start(d, (k - 1) as nat));
    }
}

/// Building the index changes no lookup's outcome: a bounds error stays the
/// same error, a cached value stays the same value, and a scan from the data
/// start becomes one read at the offset where the scan would have arrived.
///
/// `before` is a reader without index, and `after` what building the index
/// from the line lengths `lens` of its data section `d` made of it.
pub proof fn lemma_index_keeps_lookups<V: Copy>(
    before: EsriASCIIReader<V>,
    after: EsriASCIIReader<V>,
    d: Seq<u8>,
    lens: Seq<u64>,
    row: usize,
    col: usize,
)
    requires
        before.wf(),
        after.wf(),
        !before.indexed(),
        after.indexed(),
        after.header == before.header,
        after.data_start == before.data_start,
        after.rows@ == before.rows@,
        lens.len() >= before.header.nrows,
        line_lengths_of(d, lens),
        forall|k: int|
            0 <= k < before.header.nrows ==> #[trigger] after.line_starts@[k] == before.data_start
                + prefix_sum(lens, k),
    ensures
        before.lookup_spec(row, col) is Err ==> after.lookup_spec(row, col) == before.lookup_spec(row, col),
        before.lookup_spec(row, col) matches Ok(Lookup::Value(_)) ==> after.lookup_spec(row, col)
            == before.lookup_spec(row, col),
        ({
            let b = before.lookup_spec(row, col);
            let a = after.lookup_spec(row, col);
            b is Ok && !(b->Ok_0 is Value) ==> {
                &&& a is Ok
                &&& lookup_line(d, before.data_start as int, a->Ok_0) == lookup_line(
                    d,
                    before.data_start as int,
                    b->Ok_0,
                )
                &&& lookup_line(d, before.data_start as int, b->Ok_0).is_some()
            }
        }),
{
    if row < before.header.nrows && col < before.header.ncols && !before.cached(row as int) {
        let line = line_of_row(before.header.nrows as int, row as int);
        lemma_prefix_sum_is_line_start(d, lens, line);
    }
}

/// A full scan reports every cell exactly once: the `k`-th cell reported
/// lies inside the raster and comes back to `k` under [`scan_index`].
pub proof fn lemma_scan_cells_in_raster(nrows: int, ncols: int, k: int)
    requires
        0 < nrows,
        0 < ncols,
        0 <= k < nrows * ncols,
    ensures
        0 <= scan_cell(nrows, ncols, k).0 < nrows,
        0 <= scan_cell(nrows, ncols, k).1 < ncols,
        scan_index(nrows, ncols, scan_cell(nrows, ncols, k).0, scan_cell(nrows, ncols, k).1) == k,
{
    vstd::arithmetic::div_mod::lemma_fundamental_div_mod(k, ncols);
    vstd::arithmetic::div_mod::lemma_div_pos_is_pos(k, ncols);
    assert(k < ncols * nrows) by (nonlinear_arith)
        requires
            k < nrows * ncols,
    ;
    vstd::arithmetic::div_mod::lemma_multiply_divide_lt(k, ncols, nrows);
    vstd::arithmetic::div_mod::lemma_mod_bound(k, ncols);
    let q = k / ncols;
    assert(ncols * q == q * ncols) by (nonlinear_arith);
}

/// The scan and the lookup read a cell from the same place: the cell that
/// the scan reports as (`row`, `col`) is column `col` of the line that
/// [`EsriASCIIReader::get_index`] reads for (`row`, `col`), so both give the
/// same value; and each cell of the raster is reported.
pub proof fn lemma_scan_agrees_with_lookup(nrows: int, ncols: int, row: int, col: int)
    requires
        0 < nrows,
        0 < ncols,
        0 <= row < nrows,
        0 <= col < ncols,
    ensures
        0 <= scan_index(nrows, ncols, row, col) < nrows * ncols,
        scan_cell(nrows, ncols, scan_index(nrows, ncols, row, col)) == (row, col),
        scan_index(nrows, ncols, row, col) / ncols == line_of_row(nrows, row),
{
    let line = line_of_row(nrows, row);
    vstd::arithmetic::div_mod::lemma_fundamental_div_mod_converse(line * ncols + col, ncols, line, col);
    assert(line * ncols + col < nrows * ncols) by (nonlinear_arith)
        requires
            0 <= line < nrows,
            0 <= col < ncols,
    ;
    assert(0 <= line * ncols) by (nonlinear_arith)
        requires
            0 <= line,
            0 < ncols,
    ;
}

/// A point whose offsets from the origin, in cells, have the floors of a
/// cell inside the raster falls in that very cell: in particular the
/// representative point of a cell, whose offsets are whole numbers.
pub proof fn lemma_cell_of_own_floor(n: int, i: int)
    requires
        0 <= i < n,
    ensures
        clamp_cell(i, n) == i,
{
}

/// The block used to interpolate at a point whose floor is `i`, along one
/// axis of `n >= 2` cells, has cell `i` as one of its two cells: at a grid
/// node the interpolation reads that node's own cell, which is the lower
/// cell of the block except on the far edge, where it is the upper one.
pub proof fn lemma_node_in_block(n: int, i: int)
    requires
        2 <= n,
        0 <= i < n,
    ensures
        0 <= clamp_block(i, n),
        clamp_block(i, n) + 1 < n,
        i == clamp_block(i, n) || i == clamp_block(i, n) + 1,
        i < n - 1 ==> clamp_block(i, n) == i,
{
}

/// Reading a cell out of the raster gives the bounds error, whatever the
/// reader holds.
pub proof fn lemma_out_of_bounds<V: Copy>(r: EsriASCIIReader<V>, row: usize, col: usize)
    requires
        r.wf(),
        row >= r.header.nrows || col >= r.header.ncols,
    ensures
        r.lookup_spec(row, col) == Err::<Lookup<V>, GridError>(GridError::OutOfBounds),
{
}

} // verus!
