//! The six-line preamble of an Esri ASCII grid file.
use vstd::prelude::*;
use crate::text::{
    all_digits, digits_value, eq_ignore_case, find_line_end, find_next_line, line_end, next_line,
    parse_decimal, range_eq_ignore_case, split_words, words_from,
};

verus! {

/// Which point of the lower-left cell the origin fields give.
#[derive(Clone, Copy, Debug, PartialEq, Eq, Structural)]
pub enum OriginKind {
    /// The lower-left corner of the lower-left cell (`xllcorner`, `yllcorner`).
    Corner,
    /// The center of the lower-left cell (`xllcenter`, `yllcenter`).
    Center,
}

/// The fields of the preamble, in the order in which they must appear.
#[derive(Clone, Copy, Debug, PartialEq, Eq, Structural)]
pub enum HeaderField {
    NCols,
    NRows,
    XOrigin,
    YOrigin,
    CellSize,
    NoData,
}

/// Why a preamble was refused.
#[derive(Clone, Copy, Debug, PartialEq, Eq, Structural)]
pub enum HeaderError {
    /// The input ended before this field.
    MissingField(HeaderField),
    /// The line holds another label than this field's.
    UnexpectedLabel(HeaderField),
    /// The label is right but the value is not one word, or not a positive count.
    InvalidValue(HeaderField),
}

/// A parsed preamble. The real-valued fields are kept as the text that the
/// file writes for them; the counts are parsed.
#[derive(Debug)]
pub struct EsriASCIIRasterHeader {
    pub ncols: usize,
    pub nrows: usize,
    pub origin: OriginKind,
    pub xll: Vec<u8>,
    pub yll: Vec<u8>,
    pub cellsize: Vec<u8>,
    pub nodata: Option<Vec<u8>>,
}

impl EsriASCIIRasterHeader {
    pub open spec fn wf(&self) -> bool {
        self.ncols > 0 && self.nrows > 0
    }

    /// Number of rows of the raster.
    pub fn num_rows(&self) -> (r: usize)
        ensures
            r == self.nrows,
    {
        self.nrows
    }

    /// Number of columns of the raster.
    pub fn num_cols(&self) -> (r: usize)
        ensures
            r == self.ncols,
    {
        self.ncols
    }
}

/// Labels are given by their ASCII codes, in lower case.
pub open spec fn label_ncols() -> Seq<u8> {
    seq![110, 99, 111, 108, 115]
}

pub open spec fn label_nrows() -> Seq<u8> {
    seq![110, 114, 111, 119, 115]
}

pub open spec fn label_origin(axis: u8, kind: OriginKind) -> Seq<u8> {
    match kind {
        OriginKind::Corner => seq![axis, 108, 108, 99, 111, 114, 110, 101, 114],
        OriginKind::Center => seq![axis, 108, 108, 99, 101, 110, 116, 101, 114],
    }
}

pub open spec fn label_cellsize() -> Seq<u8> {
    seq![99, 101, 108, 108, 115, 105, 122, 101]
}

pub open spec fn label_nodata() -> Seq<u8> {
    seq![110, 111, 100, 97, 116, 97, 95, 118, 97, 108, 117, 101]
}

/// The words of the line that starts at `p`.
pub open spec fn line_words(s: Seq<u8>, p: int) -> Seq<(int, int)> {
    words_from(s, p, line_end(s, p))
}

pub open spec fn word_text(s: Seq<u8>, w: (int, int)) -> Seq<u8> {
    s.subrange(w.0, w.1)
}

/// The label of the line that starts at `p`: its first word.
pub open spec fn line_label(s: Seq<u8>, p: int) -> Seq<u8> {
    word_text(s, line_words(s, p)[0])
}

/// The value of the line that starts at `p`: its second word.
pub open spec fn line_value(s: Seq<u8>, p: int) -> Seq<u8> {
    word_text(s, line_words(s, p)[1])
}

pub open spec fn labelled(s: Seq<u8>, p: int, label: Seq<u8>) -> bool {
    line_words(s, p).len() > 0 && eq_ignore_case(line_label(s, p), label)
}

/// The line holds exactly a label and one value.
pub open spec fn has_one_value(s: Seq<u8>, p: int) -> bool {
    line_words(s, p).len() == 2
}

pub open spec fn is_count(v: Seq<u8>) -> bool {
    v.len() > 0 && all_digits(v) && 0 < digits_value(v) <= usize::MAX
}

/// Start of the `i`-th line.
pub open spec fn line_start(s: Seq<u8>, i: nat) -> int
    decreases i,
{
    if i == 0 {
        0
    } else {
        next_line(s, line_start(s, (i - 1) as nat))
    }
}

/// The origin convention that the X origin line names.
pub open spec fn origin_of(s: Seq<u8>) -> OriginKind {
    if labelled(s, line_start(s, 2), label_origin(120, OriginKind::Center)) {
        OriginKind::Center
    } else {
        OriginKind::Corner
    }
}

/// The error of a required field whose line starts at `p`, if any.
pub open spec fn field_error(s: Seq<u8>, p: int, f: HeaderField, label: Seq<u8>, counted: bool) -> Option<HeaderError> {
    if p >= s.len() {
        Some(HeaderError::MissingField(f))
    } else if !labelled(s, p, label) {
        Some(HeaderError::UnexpectedLabel(f))
    } else if !has_one_value(s, p) || (counted && !is_count(line_value(s, p))) {
        Some(HeaderError::InvalidValue(f))
    } else {
        None
    }
}

/// The X origin line may name either convention.
pub open spec fn x_origin_error(s: Seq<u8>) -> Option<HeaderError> {
    let p = line_start(s, 2);
    if labelled(s, p, label_origin(120, OriginKind::Corner)) {
        field_error(s, p, HeaderField::XOrigin, label_origin(120, OriginKind::Corner), false)
    } else {
        field_error(s, p, HeaderField::XOrigin, label_origin(120, OriginKind::Center), false)
    }
}

/// The nodata line, which may be absent, is there.
pub open spec fn has_nodata(s: Seq<u8>) -> bool {
    let p = line_start(s, 5);
    p < s.len() && labelled(s, p, label_nodata())
}

/// The first error of the preamble at the start of `s`, if any.
pub open spec fn header_error(s: Seq<u8>) -> Option<HeaderError> {
    let e0 = field_error(s, line_start(s, 0), HeaderField::NCols, label_ncols(), true);
    let e1 = field_error(s, line_start(s, 1), HeaderField::NRows, label_nrows(), true);
    let e2 = x_origin_error(s);
    let e3 = field_error(s, line_start(s, 3), HeaderField::YOrigin, label_origin(121, origin_of(s)), false);
    let e4 = field_error(s, line_start(s, 4), HeaderField::CellSize, label_cellsize(), false);
    if e0.is_some() {
        e0
    } else if e1.is_some() {
        e1
    } else if e2.is_some() {
        e2
    } else if e3.is_some() {
        e3
    } else if e4.is_some() {
        e4
    } else if has_nodata(s) && !has_one_value(s, line_start(s, 5)) {
        Some(HeaderError::InvalidValue(HeaderField::NoData))
    } else {
        None
    }
}

/// Where the data rows start after a valid preamble.
pub open spec fn data_start(s: Seq<u8>) -> int {
    if has_nodata(s) {
        line_start(s, 6)
    } else {
        line_start(s, 5)
    }
}

/// `h` holds what the preamble at the start of `s` writes.
pub open spec fn header_matches(s: Seq<u8>, h: EsriASCIIRasterHeader) -> bool {
    &&& h.ncols == digits_value(line_value(s, line_start(s, 0)))
    &&& h.nrows == digits_value(line_value(s, line_start(s, 1)))
    &&& h.origin == origin_of(s)
    &&& h.xll@ == line_value(s, line_start(s, 2))
    &&& h.yll@ == line_value(s, line_start(s, 3))
    &&& h.cellsize@ == line_value(s, line_start(s, 4))
    &&& if has_nodata(s) {
        h.nodata.is_some() && h.nodata.unwrap()@ == line_value(s, line_start(s, 5))
    } else {
        h.nodata.is_none()
    }
}

fn ncols_label() -> (r: Vec<u8>)
    ensures
        r@ == label_ncols(),
{
    vec![110, 99, 111, 108, 115]
}

fn nrows_label() -> (r: Vec<u8>)
    ensures
        r@ == label_nrows(),
{
    vec![110, 114, 111, 119, 115]
}

fn origin_label(axis: u8, kind: OriginKind) -> (r: Vec<u8>)
    ensures
        r@ == label_origin(axis, kind),
{
    match kind {
        OriginKind::Corner => vec![axis, 108, 108, 99, 111, 114, 110, 101, 114],
        OriginKind::Center => vec![axis, 108, 108, 99, 101, 110, 116, 101, 114],
    }
}

fn cellsize_label() -> (r: Vec<u8>)
    ensures
        r@ == label_cellsize(),
{
    vec![99, 101, 108, 108, 115, 105, 122, 101]
}

fn nodata_label() -> (r: Vec<u8>)
    ensures
        r@ == label_nodata(),
{
    vec![110, 111, 100, 97, 116, 97, 95, 118, 97, 108, 117, 101]
}

/// The words of the line that starts at `p`.
fn words_of_line(s: &[u8], p: usize) -> (r: Vec<(usize, usize)>)
    requires
        p <= s@.len(),
    ensures
        r@.len() == line_words(s@, p as int).len(),
        forall|k: int|
            0 <= k < r@.len() ==> (#[trigger] r@[k]).0 == line_words(s@, p as int)[k].0
                && r@[k].1 == line_words(s@, p as int)[k].1 && r@[k].0 <= r@[k].1 <= s@.len(),
{
    let e = find_line_end(s, p);
    let r = split_words(s, p, e);
    proof {
        assert forall|k: int| 0 <= k < r@.len() implies (#[trigger] r@[k]).0 <= r@[k].1 <= s@.len() by {
            lemma_words_within(s@, p as int, e as int, k);
        }
    }
    r
}

proof fn lemma_words_within(s: Seq<u8>, i: int, end: int, k: int)
    requires
        i <= end,
        0 <= k < words_from(s, i, end).len(),
    ensures
        i <= words_from(s, i, end)[k].0 <= words_from(s, i, end)[k].1 <= end,
    decreases end - i,
{
    crate::text::lemma_skip_spaces_bounds(s, i, end);
    let a = crate::text::skip_spaces(s, i, end);
    if i < end && a < end {
        crate::text::lemma_skip_word_bounds(s, a, end);
        crate::text::lemma_skip_spaces_stops(s, i, end);
        let b = crate::text::skip_word(s, a, end);
        crate::text::lemma_skip_word_bounds(s, a + 1, end);
        if k > 0 {
            lemma_words_within(s, b, end, k - 1);
        }
    }
}

/// A copy of `s[lo..hi]`.
fn copy_range(s: &[u8], lo: usize, hi: usize) -> (r: Vec<u8>)
    requires
        lo <= hi <= s@.len(),
    ensures
        r@ == s@.subrange(lo as int, hi as int),
{
    let mut r: Vec<u8> = Vec::new();
    let mut j: usize = lo;
    while j < hi
        invariant
            lo <= j <= hi <= s@.len(),
            r@ == s@.subrange(lo as int, j as int),
        decreases hi - j,
    {
        r.push(s[j]);
        j = j + 1;
    }
    r
}

/// The line that starts at `p` carries `label`.
fn has_label(s: &[u8], p: usize, words: &Vec<(usize, usize)>, label: &Vec<u8>) -> (r: bool)
    requires
        p <= s@.len(),
        words@.len() == line_words(s@, p as int).len(),
        forall|k: int|
            0 <= k < words@.len() ==> (#[trigger] words@[k]).0 == line_words(s@, p as int)[k].0
                && words@[k].1 == line_words(s@, p as int)[k].1 && words@[k].0 <= words@[k].1 <= s@.len(),
    ensures
        r == labelled(s@, p as int, label@),
{
    if words.len() == 0 {
        false
    } else {
        let (a, b) = words[0];
        range_eq_ignore_case(s, a, b, label.as_slice())
    }
}

/// Checks the required field whose line starts at `p`; on success gives the
/// range of its value and, for a counted field, the count.
fn check_field(s: &[u8], p: usize, f: HeaderField, label: &Vec<u8>, counted: bool) -> (r: Result<(usize, usize, usize), HeaderError>)
    requires
        p <= s@.len(),
    ensures
        match r {
            Ok((a, b, n)) => {
                &&& field_error(s@, p as int, f, label@, counted).is_none()
                &&& a <= b <= s@.len()
                &&& s@.subrange(a as int, b as int) == line_value(s@, p as int)
                &&& counted ==> n == digits_value(line_value(s@, p as int))
            },
            Err(e) => field_error(s@, p as int, f, label@, counted) == Some(e),
        },
{
    if p >= s.len() {
        return Err(HeaderError::MissingField(f));
    }
    let words = words_of_line(s, p);
    if !has_label(s, p, &words, label) {
        return Err(HeaderError::UnexpectedLabel(f));
    }
    if words.len() != 2 {
        return Err(HeaderError::InvalidValue(f));
    }
    let (a, b) = words[1];
    if counted {
        match parse_decimal(s, a, b) {
            Some(n) => {
                if n == 0 {
                    return Err(HeaderError::InvalidValue(f));
                }
                Ok((a, b, n))
            },
            None => Err(HeaderError::InvalidValue(f)),
        }
    } else {
        Ok((a, b, 0))
    }
}

/// Reads the preamble at the start of `s`, which holds at least the first
/// six lines of a file (or the whole file, if it is shorter).
///
/// On success gives the header and the offset in `s` at which the data rows
/// start: after the cell size line, or after the nodata line when the sixth
/// line carries the `NODATA_value` label. Labels are matched without regard
/// to case. The Y origin must use the convention that the X origin names.
pub fn parse_header(s: &[u8]) -> (r: Result<(EsriASCIIRasterHeader, usize), HeaderError>)
    ensures
        match r {
            Ok((h, start)) => {
                &&& header_error(s@).is_none()
                &&& header_matches(s@, h)
                &&& h.wf()
                &&& start == data_start(s@)
            },
            Err(e) => header_error(s@) == Some(e),
        },
{
    let pos0: usize = 0;
    let (_, _, ncols) = check_field(s, pos0, HeaderField::NCols, &ncols_label(), true)?;
    let pos1 = find_next_line(s, pos0);
    let (_, _, nrows) = check_field(s, pos1, HeaderField::NRows, &nrows_label(), true)?;
    let pos2 = find_next_line(s, pos1);
    let corner = origin_label(120, OriginKind::Corner);
    let center = origin_label(120, OriginKind::Center);
    let origin = if pos2 < s.len() && has_label(s, pos2, &words_of_line(s, pos2), &center) {
        OriginKind::Center
    } else {
        OriginKind::Corner
    };
    let (xa, xb, _) = if pos2 < s.len() && has_label(s, pos2, &words_of_line(s, pos2), &corner) {
        check_field(s, pos2, HeaderField::XOrigin, &corner, false)?
    } else {
        check_field(s, pos2, HeaderField::XOrigin, &center, false)?
    };
    let pos3 = find_next_line(s, pos2);
    let (ya, yb, _) = check_field(s, pos3, HeaderField::YOrigin, &origin_label(121, origin), false)?;
    let pos4 = find_next_line(s, pos3);
    let (ca, cb, _) = check_field(s, pos4, HeaderField::CellSize, &cellsize_label(), false)?;
    let pos5 = find_next_line(s, pos4);
    let mut start = pos5;
    let mut nodata: Option<Vec<u8>> = None;
    if pos5 < s.len() {
        let words = words_of_line(s, pos5);
        if has_label(s, pos5, &words, &nodata_label()) {
            if words.len() != 2 {
                return Err(HeaderError::InvalidValue(HeaderField::NoData));
            }
            let (na, nb) = words[1];
            nodata = Some(copy_range(s, na, nb));
            start = find_next_line(s, pos5);
        }
    }
    let header = EsriASCIIRasterHeader {
        ncols,
        nrows,
        origin,
        xll: copy_range(s, xa, xb),
        yll: copy_range(s, ya, yb),
        cellsize: copy_range(s, ca, cb),
        nodata,
    };
    Ok((header, start))
}

} // verus!
