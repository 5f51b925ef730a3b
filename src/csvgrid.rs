use vstd::prelude::*;
use crate::csvtext::{csv_plain_text, plain_csv_text, plain_field, plain_records, plain_rows};
use crate::grid::{RectGrid, cell_index, lemma_cell_in_bounds};

verus! {

/// Why text could not become a field, or a field could not become text.
#[derive(Debug, Clone, Copy, PartialEq, Eq, Structural)]
pub enum CsvError {
    /// The CSV reader refused the text.
    Unreadable,
    /// The text holds no record.
    Empty,
    /// Record `row` (counting from 1) holds `actual` fields where the first
    /// record holds `expected`.
    RaggedRow { row: usize, expected: usize, actual: usize },
    /// The cell in record `row`, field `column` (both counting from 1), is
    /// not a number.
    BadNumber { row: usize, column: usize },
    /// The CSV writer refused the cells.
    Unwritable,
}

/// The text of each field of each record.
pub open spec fn records_view(v: Seq<Vec<String>>) -> Seq<Seq<Seq<char>>> {
    v.map_values(|row: Vec<String>| row@.map_values(|s: String| s@))
}

/// What the CSV reader makes of `text`: its records, or `None` where it
/// refuses the text.
pub uninterp spec fn csv_records_of(text: Seq<char>) -> Option<Seq<Seq<Seq<char>>>>;

/// What the CSV writer makes of `rows`, or `None` where it refuses them.
pub uninterp spec fn csv_text_of(rows: Seq<Seq<Seq<char>>>) -> Option<Seq<char>>;

/// Relies on csv's `Reader`, set to read no header row and records of any
/// length: the records of `text` with their fields. Text with no quote, no
/// carriage return and no byte-order mark is read line by line, empty lines
/// skipped, each line cut at its commas.
#[verifier::external_body]
fn read_records(text: &str) -> (r: Option<Vec<Vec<String>>>)
    ensures
        r is Some <==> csv_records_of(text@) is Some,
        r matches Some(v) ==> csv_records_of(text@) == Some(records_view(v@)),
        plain_csv_text(text@) ==> r is Some,
        r matches Some(v) ==> (plain_csv_text(text@) ==> records_view(v@) == plain_records(text@)),
{
    let mut reader = csv::ReaderBuilder::new().has_headers(false).flexible(true).from_reader(
        text.as_bytes(),
    );
    let mut rows = Vec::new();
    for record in reader.records() {
        rows.push(record.ok()?.iter().map(String::from).collect());
    }
    Some(rows)
}

/// Relies on csv's `Writer`, set to write no header row and records of any
/// length: the CSV text of `rows`. Non-empty fields with no comma, quote,
/// newline, carriage return or byte-order mark are written as they are, joined by commas, each record
/// ended by a newline.
#[verifier::external_body]
fn write_records(rows: &Vec<Vec<String>>) -> (r: Option<String>)
    ensures
        r is Some <==> csv_text_of(records_view(rows@)) is Some,
        r matches Some(s) ==> csv_text_of(records_view(rows@)) == Some(s@),
        plain_rows(records_view(rows@)) ==> r is Some,
        r matches Some(s) ==> (plain_rows(records_view(rows@)) ==> s@ == csv_plain_text(
            records_view(rows@),
        )),
{
    let mut writer = csv::WriterBuilder::new().has_headers(false).flexible(true).from_writer(
        Vec::new(),
    );
    for row in rows.iter() {
        writer.write_record(row).ok()?;
    }
    String::from_utf8(writer.into_inner().ok()?).ok()
}

/// The first record at or after `k` whose length differs from the first
/// record's.
pub open spec fn first_ragged(rows: Seq<Seq<Seq<char>>>, k: int) -> Option<int>
    decreases rows.len() - k,
{
    if k < 0 || k >= rows.len() {
        None
    } else if rows[k].len() != rows[0].len() {
        Some(k)
    } else {
        first_ragged(rows, k + 1)
    }
}

/// The shape `(width, height)` of the field that `rows` make, or why they
/// make none.
pub open spec fn csv_shape(rows: Seq<Seq<Seq<char>>>) -> Result<(nat, nat), CsvError> {
    if rows.len() == 0 {
        Err(CsvError::Empty)
    } else {
        match first_ragged(rows, 1) {
            Some(k) => Err(
                CsvError::RaggedRow {
                    row: (k + 1) as usize,
                    expected: rows[0].len() as usize,
                    actual: rows[k].len() as usize,
                },
            ),
            None => Ok((rows[0].len(), rows.len())),
        }
    }
}

/// The cells of a field, row by row.
pub open spec fn grid_rows(g: RectGrid<String>) -> Seq<Seq<Seq<char>>> {
    Seq::new(g.spec_height(), |j: int| Seq::new(g.spec_width(), |i: int| g.at(i, j)@))
}

/// `r` is the field that `rows` make, or the reason they make none.
pub open spec fn parsed_as(r: Result<RectGrid<String>, CsvError>, rows: Seq<Seq<Seq<char>>>) -> bool {
    match csv_shape(rows) {
        Ok((w, h)) => (r matches Ok(g) && g.wf() && g.spec_width() == w && g.spec_height() == h
            && grid_rows(g) == rows),
        Err(e) => r == Err::<RectGrid<String>, CsvError>(e),
    }
}

/// The shape of the field that the records make: as many columns as the
/// first record has fields, one row per record. Fails with `Empty` when
/// there is no record, and with `RaggedRow` at the first record whose
/// length differs from the first one's.
pub fn check_shape(rows: &Vec<Vec<String>>) -> (r: Result<(usize, usize), CsvError>)
    ensures
        match csv_shape(records_view(rows@)) {
            Ok((w, h)) => r == Ok::<(usize, usize), CsvError>((w as usize, h as usize)),
            Err(e) => r == Err::<(usize, usize), CsvError>(e),
        },
{
    let ghost view = records_view(rows@);
    if rows.len() == 0 {
        return Err(CsvError::Empty);
    }
    let width = rows[0].len();
    let mut k: usize = 1;
    while k < rows.len()
        invariant
            1 <= k <= rows.len(),
            view == records_view(rows@),
            width == view[0].len(),
            first_ragged(view, 1) == first_ragged(view, k as int),
        decreases rows.len() - k,
    {
        if rows[k].len() != width {
            return Err(CsvError::RaggedRow { row: k + 1, expected: width, actual: rows[k].len() });
        }
        k = k + 1;
    }
    Ok((width, rows.len()))
}

/// Reads CSV text as a field of cell texts: record `j`, field `i` becomes
/// cell `(i, j)`. Fails with `Unreadable` where the CSV reader refuses the
/// text, and otherwise as `check_shape` says.
pub fn parse_csv_cells(text: &str) -> (r: Result<RectGrid<String>, CsvError>)
    ensures
        match csv_records_of(text@) {
            None => r == Err::<RectGrid<String>, CsvError>(CsvError::Unreadable),
            Some(rows) => parsed_as(r, rows),
        },
        plain_csv_text(text@) ==> parsed_as(r, plain_records(text@)),
{
    let records = match read_records(text) {
        Some(v) => v,
        None => return Err(CsvError::Unreadable),
    };
    let ghost view = records_view(records@);
    let (width, height) = match check_shape(&records) {
        Ok(shape) => shape,
        Err(e) => return Err(e),
    };
    assert(view.len() > 0 && first_ragged(view, 1) is None && width == view[0].len() && height
        == view.len()) by {
        if view.len() == 0 {
        } else if first_ragged(view, 1) is Some {
        } else {
            assert(view[0] == records@[0]@.map_values(|s: String| s@));
            assert(records@[0].len() == view[0].len());
            assert(records.len() == view.len());
        }
    }
    assert forall|j: int| 0 <= j < view.len() implies (#[trigger] view[j]).len() == width by {
        if j >= 1 {
            lemma_no_ragged(view, 1, j);
        }
    }
    let mut cells: Vec<String> = Vec::new();
    let mut j: usize = 0;
    while j < height
        invariant
            j <= height,
            height == view.len(),
            view == records_view(records@),
            forall|b: int| 0 <= b < view.len() ==> (#[trigger] view[b]).len() == width,
            cells.len() == j * width,
            forall|a: int, b: int|
                0 <= a < width && 0 <= b < j ==> (#[trigger] cells@[cell_index(width as int, a, b)])@
                    == view[b][a],
        decreases height - j,
    {
        let mut i: usize = 0;
        while i < width
            invariant
                i <= width,
                j < height,
                height == view.len(),
                view == records_view(records@),
                forall|b: int| 0 <= b < view.len() ==> (#[trigger] view[b]).len() == width,
                cells.len() == j * width + i,
                forall|a: int, b: int|
                    0 <= a < width && 0 <= b < j ==> (#[trigger] cells@[cell_index(width as int, a, b)])@
                        == view[b][a],
                forall|a: int|
                    0 <= a < i ==> (#[trigger] cells@[cell_index(width as int, a, j as int)])@
                        == view[j as int][a],
            decreases width - i,
        {
            proof {
                assert forall|a: int, b: int| 0 <= a < width && 0 <= b < j implies cell_index(
                    width as int,
                    a,
                    b,
                ) < j * width by {
                    lemma_cell_in_bounds(width as int, j as int, a, b);
                }
                assert(view[j as int].len() == width);
                assert(view[j as int] == records@[j as int]@.map_values(|s: String| s@));
                assert(records@[j as int]@.len() == width);
            }
            cells.push(records[j][i].clone());
            i = i + 1;
        }
        proof {
            assert((j + 1) * width == j * width + width) by (nonlinear_arith);
            assert forall|a: int, b: int| 0 <= a < width && 0 <= b < j + 1 implies (
            #[trigger] cells@[cell_index(width as int, a, b)])@ == view[b][a] by {
                if b == j {
                    assert(cells@[cell_index(width as int, a, j as int)]@ == view[j as int][a]);
                }
            }
        }
        j = j + 1;
    }
    proof {
        assert(height * width == width * height) by (nonlinear_arith);
    }
    let grid = match RectGrid::from_cells(width, height, cells) {
        Ok(g) => g,
        Err(_) => return Err(CsvError::Unreadable),
    };
    assert(grid_rows(grid) =~= view) by {
        assert forall|b: int| 0 <= b < view.len() implies grid_rows(grid)[b] =~= view[b] by {
            assert forall|a: int| 0 <= a < width implies grid_rows(grid)[b][a] == view[b][a] by {
                assert(grid.at(a, b) == cells@[cell_index(width as int, a, b)]);
            }
        }
    }
    Ok(grid)
}

/// Writes a field of cell texts as CSV: row `j` becomes record `j`, cell
/// `(i, j)` its field `i`. Fails with `Unwritable` where the CSV writer
/// refuses the cells.
pub fn format_csv_cells(grid: &RectGrid<String>) -> (r: Result<String, CsvError>)
    requires
        grid.wf(),
    ensures
        r is Ok <==> csv_text_of(grid_rows(*grid)) is Some,
        r matches Ok(s) ==> csv_text_of(grid_rows(*grid)) == Some(s@),
        plain_rows(grid_rows(*grid)) ==> (r matches Ok(s) && s@ == csv_plain_text(grid_rows(*grid))),
{
    let ghost want = grid_rows(*grid);
    let width = grid.width();
    let height = grid.height();
    let mut rows: Vec<Vec<String>> = Vec::new();
    let mut j: usize = 0;
    while j < height
        invariant
            j <= height,
            grid.wf(),
            width == grid.spec_width(),
            height == grid.spec_height(),
            want == grid_rows(*grid),
            rows.len() == j,
            forall|b: int| 0 <= b < j ==> (#[trigger] records_view(rows@)[b]) == want[b],
        decreases height - j,
    {
        let mut row: Vec<String> = Vec::new();
        let mut i: usize = 0;
        while i < width
            invariant
                i <= width,
                j < height,
                grid.wf(),
                width == grid.spec_width(),
                height == grid.spec_height(),
                row.len() == i,
                forall|a: int| 0 <= a < i ==> (#[trigger] row@[a])@ == grid.at(a, j as int)@,
            decreases width - i,
        {
            row.push(grid.get_ref(i, j).clone());
            i = i + 1;
        }
        proof {
            assert(row@.map_values(|s: String| s@) =~= want[j as int]);
        }
        let ghost before = rows@;
        rows.push(row);
        proof {
            assert forall|b: int| 0 <= b < j + 1 implies (#[trigger] records_view(rows@)[b]) == want[b] by {
                if b < j {
                    assert(rows@[b] == before[b]);
                    assert(records_view(before)[b] == want[b]);
                }
            }
        }
        j = j + 1;
    }
    assert(records_view(rows@) =~= want);
    match write_records(&rows) {
        Some(s) => Ok(s),
        None => Err(CsvError::Unwritable),
    }
}

/// With every record from `k` on as long as the first, none from `k` on is
/// ragged.
proof fn lemma_all_even(rows: Seq<Seq<Seq<char>>>, k: int)
    requires
        1 <= k,
        forall|j: int| 0 <= j < rows.len() ==> (#[trigger] rows[j]).len() == rows[0].len(),
    ensures
        first_ragged(rows, k) is None,
    decreases rows.len() - k,
{
    if k < rows.len() {
        lemma_all_even(rows, k + 1);
    }
}

/// A field of plain cells with at least one row and one column, written by
/// `format_csv_cells` and read back by `parse_csv_cells`, comes back with
/// the same cells and the same shape: the text written is plain, its
/// records are the field's rows, and they make a field of the same width
/// and height.
pub proof fn lemma_cells_round_trip(g: RectGrid<String>)
    requires
        g.wf(),
        g.spec_width() > 0,
        g.spec_height() > 0,
        forall|i: int, j: int|
            0 <= i < g.spec_width() && 0 <= j < g.spec_height() ==> plain_field(#[trigger] g.at(i, j)@),
    ensures
        plain_rows(grid_rows(g)),
        plain_csv_text(csv_plain_text(grid_rows(g))),
        plain_records(csv_plain_text(grid_rows(g))) == grid_rows(g),
        csv_shape(grid_rows(g)) == Ok::<(nat, nat), CsvError>((g.spec_width(), g.spec_height())),
{
    let rows = grid_rows(g);
    assert(plain_rows(rows)) by {
        assert forall|j: int| 0 <= j < rows.len() implies rows[j].len() > 0 && forall|i: int|
            0 <= i < rows[j].len() ==> plain_field(#[trigger] rows[j][i]) by {
            assert forall|i: int| 0 <= i < rows[j].len() implies plain_field(#[trigger] rows[j][i]) by {
                assert(plain_field(g.at(i, j)@));
            }
        }
    }
    crate::csvtext::lemma_csv_round_trip(rows);
    lemma_all_even(rows, 1);
}

/// The first cell, row-major in rows of `width`, whose text did not read
/// as a number, as a `BadNumber` error with its record and field counting
/// from 1; `None` when every cell read.
pub fn first_bad_number(width: usize, read_ok: &Vec<bool>) -> (r: Option<CsvError>)
    requires
        width > 0,
    ensures
        r is None <==> forall|k: int| 0 <= k < read_ok@.len() ==> read_ok@[k],
        r matches Some(e) ==> exists|k: int|
            0 <= k < read_ok@.len() && !read_ok@[k] && (forall|m: int| 0 <= m < k ==> read_ok@[m])
                && e == (CsvError::BadNumber {
                row: (k / width as int + 1) as usize,
                column: (k % width as int + 1) as usize,
            }),
{
    let mut k: usize = 0;
    while k < read_ok.len()
        invariant
            k <= read_ok.len(),
            width > 0,
            forall|m: int| 0 <= m < k ==> read_ok@[m],
        decreases read_ok.len() - k,
    {
        if !read_ok[k] {
            proof {
                assert(k / width <= k) by (nonlinear_arith)
                    requires
                        width > 0,
                ;
            }
            return Some(CsvError::BadNumber { row: k / width + 1, column: k % width + 1 });
        }
        k = k + 1;
    }
    None
}

/// With no ragged record from `k` on, every record from `k` on is as long
/// as the first.
proof fn lemma_no_ragged(rows: Seq<Seq<Seq<char>>>, k: int, j: int)
    requires
        1 <= k,
        rows.len() > 0,
        first_ragged(rows, k) is None,
        k <= j < rows.len(),
    ensures
        rows[j].len() == rows[0].len(),
    decreases j - k,
{
    if k < j {
        lemma_no_ragged(rows, k + 1, j);
    }
}

} // verus!
