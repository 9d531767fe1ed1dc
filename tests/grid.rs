use esri_ascii_grid::header::{parse_header, HeaderError, HeaderField, OriginKind};
use esri_ascii_grid::reader::{EsriASCIIReader, GridError, Lookup};
use esri_ascii_grid::scan::Step;
use esri_ascii_grid::text::{find_next_line, parse_decimal, split_words};

const SAMPLE: &str = "ncols 4\nnrows 4\nxllcorner 390000\nyllcorner 344000\ncellsize 1\nNODATA_value -9999\n\
135.44 1.5 2.5 135.44\n4 5 6 7\n8 9 10 11\n141.27 12 13 14\n";

fn open(file: &[u8]) -> EsriASCIIReader<f64> {
    let (header, start) = parse_header(file).unwrap();
    EsriASCIIReader::from_header(header, start as u64)
}

fn parse_line(file: &[u8], start: usize) -> Vec<f64> {
    let end = find_next_line(file, start);
    split_words(file, start, end)
        .iter()
        .map(|&(a, b)| std::str::from_utf8(&file[a..b]).unwrap().parse::<f64>().unwrap())
        .collect()
}

/// Serves a cell the way a caller with the whole file at hand would.
fn value_at(reader: &mut EsriASCIIReader<f64>, file: &[u8], row: usize, col: usize) -> Result<f64, GridError> {
    match reader.get_index(row, col)? {
        Lookup::Value(v) => Ok(v),
        Lookup::ReadLineAt(offset) => {
            let values = parse_line(file, offset as usize);
            reader.store_row(row, col, values)
        }
        Lookup::ScanFrom { start, skip } => {
            let mut p = start as usize;
            for _ in 0..skip {
                p = find_next_line(file, p);
            }
            let values = parse_line(file, p);
            reader.store_row(row, col, values)
        }
    }
}

fn line_lengths(file: &[u8], start: usize) -> Vec<u64> {
    let mut lens = Vec::new();
    let mut p = start;
    while p < file.len() {
        let q = find_next_line(file, p);
        lens.push((q - p) as u64);
        p = q;
    }
    lens
}

fn build(reader: &mut EsriASCIIReader<f64>, file: &[u8]) {
    let lens = line_lengths(file, reader.data_start as usize);
    reader.build_index(&lens).unwrap();
}

#[test]
fn sample_corners_by_index() {
    let file = SAMPLE.as_bytes();
    let mut grid = open(file);
    build(&mut grid, file);
    assert_eq!(value_at(&mut grid, file, 0, 0).unwrap(), 141.27);
    assert_eq!(value_at(&mut grid, file, 3, 3).unwrap(), 135.44);
}

#[test]
fn sample_corners_by_coordinate() {
    let file = SAMPLE.as_bytes();
    let mut grid = open(file);
    build(&mut grid, file);
    let cell = |x: f64, y: f64| {
        let col = ((x - 390000.0) / 1.0).floor() as usize;
        let row = ((y - 344000.0) / 1.0).floor() as usize;
        (row, col)
    };
    let (r0, c0) = cell(390000.0, 344000.0);
    let (r0, c0) = grid.cell_of(r0, c0);
    assert_eq!(value_at(&mut grid, file, r0, c0).unwrap(), 141.27);
    let (r1, c1) = cell(390003.0, 344003.0);
    let (r1, c1) = grid.cell_of(r1, c1);
    assert_eq!((r1, c1), (3, 3));
    assert_eq!(value_at(&mut grid, file, r1, c1).unwrap(), 135.44);
}

#[test]
fn header_fields() {
    let (h, start) = parse_header(SAMPLE.as_bytes()).unwrap();
    assert_eq!(h.num_cols(), 4);
    assert_eq!(h.num_rows(), 4);
    assert_eq!(h.origin, OriginKind::Corner);
    assert_eq!(h.xll, b"390000".to_vec());
    assert_eq!(h.yll, b"344000".to_vec());
    assert_eq!(h.cellsize, b"1".to_vec());
    assert_eq!(h.nodata, Some(b"-9999".to_vec()));
    assert_eq!(&SAMPLE.as_bytes()[start..start + 6], b"135.44");
}

#[test]
fn header_without_nodata_and_mixed_case() {
    let text = "NCOLS 2\r\nNRows 3\r\nXLLCENTER 0.5\r\nyllCenter 1.5\r\nCellSize 2\r\n1 2\r\n3 4\r\n5 6\r\n";
    let (h, start) = parse_header(text.as_bytes()).unwrap();
    assert_eq!(h.ncols, 2);
    assert_eq!(h.nrows, 3);
    assert_eq!(h.origin, OriginKind::Center);
    assert_eq!(h.nodata, None);
    assert_eq!(&text.as_bytes()[start..start + 3], b"1 2");
}

#[test]
fn header_errors() {
    let missing = "ncols 4\nnrows 4\nxllcorner 1\n";
    assert_eq!(parse_header(missing.as_bytes()).unwrap_err(), HeaderError::MissingField(HeaderField::YOrigin));
    let wrong = "ncols 4\nncols 4\nxllcorner 1\nyllcorner 1\ncellsize 1\n";
    assert_eq!(parse_header(wrong.as_bytes()).unwrap_err(), HeaderError::UnexpectedLabel(HeaderField::NRows));
    let zero = "ncols 0\nnrows 4\nxllcorner 1\nyllcorner 1\ncellsize 1\n";
    assert_eq!(parse_header(zero.as_bytes()).unwrap_err(), HeaderError::InvalidValue(HeaderField::NCols));
    let word = "ncols four\nnrows 4\nxllcorner 1\nyllcorner 1\ncellsize 1\n";
    assert_eq!(parse_header(word.as_bytes()).unwrap_err(), HeaderError::InvalidValue(HeaderField::NCols));
    let extra = "ncols 4\nnrows 4\nxllcorner 1\nyllcorner 1\ncellsize 1 2\n";
    assert_eq!(parse_header(extra.as_bytes()).unwrap_err(), HeaderError::InvalidValue(HeaderField::CellSize));
    let mixed = "ncols 4\nnrows 4\nxllcorner 1\nyllcenter 1\ncellsize 1\n";
    assert_eq!(parse_header(mixed.as_bytes()).unwrap_err(), HeaderError::UnexpectedLabel(HeaderField::YOrigin));
    let nodata = "ncols 4\nnrows 4\nxllcorner 1\nyllcorner 1\ncellsize 1\nnodata_value\n";
    assert_eq!(parse_header(nodata.as_bytes()).unwrap_err(), HeaderError::InvalidValue(HeaderField::NoData));
    assert_eq!(parse_header(b"").unwrap_err(), HeaderError::MissingField(HeaderField::NCols));
}

#[test]
fn out_of_bounds_index() {
    let file = SAMPLE.as_bytes();
    let mut grid = open(file);
    assert_eq!(value_at(&mut grid, file, 4, 0).unwrap_err(), GridError::OutOfBounds);
    assert_eq!(value_at(&mut grid, file, 0, 4).unwrap_err(), GridError::OutOfBounds);
    assert_eq!(value_at(&mut grid, file, usize::MAX, usize::MAX).unwrap_err(), GridError::OutOfBounds);
}

#[test]
fn index_changes_no_value() {
    let file = SAMPLE.as_bytes();
    let mut plain = open(file);
    let mut indexed = open(file);
    build(&mut indexed, file);
    for row in 0..4 {
        for col in 0..4 {
            assert_eq!(value_at(&mut plain, file, row, col), value_at(&mut indexed, file, row, col));
        }
    }
}

#[test]
fn index_offsets_and_lookups() {
    let file = SAMPLE.as_bytes();
    let mut grid = open(file);
    let start = grid.data_start;
    match grid.get_index(0, 0).unwrap() {
        Lookup::ScanFrom { start: s, skip } => assert_eq!((s, skip), (start, 3)),
        other => panic!("unexpected {:?}", other),
    }
    build(&mut grid, file);
    assert!(grid.is_indexed());
    assert_eq!(grid.line_starts.len(), 4);
    assert_eq!(grid.line_starts[0], start);
    assert_eq!(grid.line_starts[1], start + 22);
    match grid.get_index(0, 0).unwrap() {
        Lookup::ReadLineAt(o) => assert_eq!(o, grid.line_starts[3]),
        other => panic!("unexpected {:?}", other),
    }
    value_at(&mut grid, file, 0, 0).unwrap();
    match grid.get_index(0, 1).unwrap() {
        Lookup::Value(v) => assert_eq!(v, 12.0),
        other => panic!("unexpected {:?}", other),
    }
    // A second build keeps the first index.
    assert_eq!(grid.build_index(&[1, 1, 1, 1]), Ok(()));
    assert_eq!(grid.line_starts[1], start + 22);
}

#[test]
fn index_of_short_data() {
    let file = SAMPLE.as_bytes();
    let mut grid = open(file);
    assert_eq!(grid.build_index(&[22, 8]), Err(GridError::UnexpectedEof));
    assert!(!grid.is_indexed());
}

#[test]
fn malformed_row_is_refused() {
    let file = SAMPLE.as_bytes();
    let mut grid = open(file);
    assert_eq!(grid.store_row(1, 0, vec![1.0, 2.0, 3.0]), Err(GridError::MalformedRow));
    assert!(matches!(grid.get_index(1, 0), Ok(Lookup::ScanFrom { .. })));
    assert_eq!(grid.store_row(1, 2, vec![1.0, 2.0, 3.0, 4.0]), Ok(3.0));
}

#[test]
fn scan_agrees_with_lookup() {
    let file = SAMPLE.as_bytes();
    let mut grid = open(file);
    let (header, start) = parse_header(file).unwrap();
    let mut scan = EsriASCIIReader::<f64>::from_header(header, start as u64).into_iter();
    let mut p = start;
    let mut seen = Vec::new();
    loop {
        match scan.next() {
            Step::Item(row, col, v) => seen.push((row, col, v)),
            Step::NeedLine => {
                scan.feed_line(parse_line(file, p)).unwrap();
                p = find_next_line(file, p);
            }
            Step::Done => break,
        }
    }
    assert_eq!(seen.len(), 16);
    assert_eq!(&seen[0..2], &[(3, 0, 135.44), (3, 1, 1.5)]);
    assert_eq!(seen[15], (0, 3, 14.0));
    for (row, col, v) in seen {
        assert_eq!(value_at(&mut grid, file, row, col).unwrap(), v);
    }
}

#[test]
fn scan_refuses_short_line() {
    let (header, _) = parse_header(SAMPLE.as_bytes()).unwrap();
    let mut scan = EsriASCIIReader::<f64>::from_header(header, 0).into_iter();
    assert!(matches!(scan.next(), Step::NeedLine));
    assert_eq!(scan.feed_line(vec![1.0]), Err(GridError::MalformedRow));
    assert!(matches!(scan.next(), Step::NeedLine));
}

#[test]
fn cells_and_blocks_clamp_at_the_far_edge() {
    let file = SAMPLE.as_bytes();
    let grid = open(file);
    assert_eq!(grid.cell_of(1, 2), (1, 2));
    assert_eq!(grid.cell_of(4, 9), (3, 3));
    assert_eq!(grid.block_of(1, 0), Some((1, 0)));
    assert_eq!(grid.block_of(3, 3), Some((2, 2)));
    let narrow = "ncols 1\nnrows 3\nxllcorner 0\nyllcorner 0\ncellsize 1\n1\n2\n3\n";
    let thin = open(narrow.as_bytes());
    assert_eq!(thin.block_of(0, 0), None);
    assert_eq!(thin.cell_of(5, 5), (2, 0));
}

#[test]
fn words_and_numbers() {
    let line = b"  12 \t 3.5\r\n";
    assert_eq!(split_words(line, 0, line.len()), vec![(2, 4), (7, 10)]);
    assert_eq!(split_words(line, 0, 2), vec![]);
    assert_eq!(parse_decimal(b"4096", 0, 4), Some(4096));
    assert_eq!(parse_decimal(b"18446744073709551616", 0, 20), None);
    assert_eq!(parse_decimal(b"12a", 0, 3), None);
    assert_eq!(parse_decimal(b"", 0, 0), None);
    assert_eq!(find_next_line(b"ab\ncd", 0), 3);
    assert_eq!(find_next_line(b"ab\ncd", 3), 5);
}
