use vstd::prelude::*;

use crate::csv_page::CsvRecord;
use crate::csv_page::ParsedPage;
use crate::csv_page::rows_view;
use crate::pagination::PageInfo;
use crate::text::chars_of;
use crate::text::float_text;
use crate::text::is_float_chars;
use crate::text::slice_chars;
use crate::text::trim_bounds;
use crate::text::trim_of;
use vstd::string::StrSliceExecFns;
use vstd::string::StringExecFns;

verus! {

/// Rows of a page that the numeric-column test looks at.
pub const DETECT_ROWS: usize = 100;

/// Points a thumbnail aims at per page.
pub const THUMBNAIL_SAMPLE_SIZE: usize = 1000;

/// One sampled point: the absolute row offset and the numeric text found there.
#[derive(Debug, Clone, PartialEq)]
pub struct SamplePoint {
    pub row: usize,
    pub value: String,
}

/// The down-sampled numeric series of one page.
#[derive(Debug, Clone, PartialEq)]
pub struct ThumbnailSample {
    pub page_index: usize,
    pub points: Vec<SamplePoint>,
}

impl View for ThumbnailSample {
    type V = (usize, Seq<(int, Seq<char>)>);

    open spec fn view(&self) -> Self::V {
        (self.page_index, points_view(self.points@))
    }
}

impl ThumbnailSample {
    /// A copy of this thumbnail.
    pub fn duplicate(&self) -> (r: ThumbnailSample)
        ensures
            r@ == self@,
    {
        let mut points: Vec<SamplePoint> = Vec::new();
        let mut i: usize = 0;
        while i < self.points.len()
            invariant
                i <= self.points@.len(),
                points@.len() == i,
                forall|k: int|
                    0 <= k < i ==> (#[trigger] points@[k]).row == self.points@[k].row
                        && points@[k].value@ == self.points@[k].value@,
            decreases self.points@.len() - i,
        {
            let p = &self.points[i];
            points.push(SamplePoint { row: p.row, value: p.value.clone() });
            i = i + 1;
        }
        let r = ThumbnailSample { page_index: self.page_index, points };
        assert(points_view(r.points@) =~= points_view(self.points@));
        r
    }
}

/// The field of column `j` in a row, if the row has one.
pub open spec fn cell(row: Seq<(Seq<char>, Seq<char>)>, j: int) -> Option<Seq<char>> {
    if 0 <= j < row.len() {
        Some(row[j].1)
    } else {
        None
    }
}

/// Whether a field counts as filled: it holds more than whitespace.
pub open spec fn filled(c: Option<Seq<char>>) -> bool {
    c is Some && trim_of(c->Some_0).len() > 0
}

/// Whether a field counts as numeric: filled, and a float once trimmed.
pub open spec fn numeric(c: Option<Seq<char>>) -> bool {
    filled(c) && float_text(trim_of(c->Some_0))
}

/// Filled fields of column `j` among the first `n` rows.
pub open spec fn filled_count(rows: Seq<Seq<(Seq<char>, Seq<char>)>>, j: int, n: int) -> nat
    decreases n,
{
    if n <= 0 {
        0
    } else {
        filled_count(rows, j, n - 1) + if filled(cell(rows[n - 1], j)) {
            1nat
        } else {
            0nat
        }
    }
}

/// Numeric fields of column `j` among the first `n` rows.
pub open spec fn numeric_count(rows: Seq<Seq<(Seq<char>, Seq<char>)>>, j: int, n: int) -> nat
    decreases n,
{
    if n <= 0 {
        0
    } else {
        numeric_count(rows, j, n - 1) + if numeric(cell(rows[n - 1], j)) {
            1nat
        } else {
            0nat
        }
    }
}

/// The threshold: some field is filled, and at least 70% of the filled
/// ones are numeric.
pub open spec fn meets_threshold(filled: nat, numeric: nat) -> bool {
    filled > 0 && 10 * numeric >= 7 * filled
}

/// Number of rows that the numeric-column test looks at.
pub open spec fn detect_rows(n: int) -> int {
    if n < DETECT_ROWS {
        n
    } else {
        DETECT_ROWS as int
    }
}

/// Column `j` passes the numeric-column test on `rows`.
pub open spec fn numeric_column(rows: Seq<Seq<(Seq<char>, Seq<char>)>>, j: int) -> bool {
    let n = detect_rows(rows.len() as int);
    meets_threshold(filled_count(rows, j, n), numeric_count(rows, j, n))
}

/// The first column at or after `j`, of `width`, that passes the test.
pub open spec fn first_numeric_from(rows: Seq<Seq<(Seq<char>, Seq<char>)>>, width: int, j: int) -> Option<
    int,
>
    decreases width - j,
{
    if j >= width {
        None
    } else if numeric_column(rows, j) {
        Some(j)
    } else {
        first_numeric_from(rows, width, j + 1)
    }
}

/// Decides whether `filled` fields of which `numeric` are numbers make a
/// numeric column.
pub fn column_qualifies(filled: usize, numeric: usize) -> (r: bool)
    requires
        numeric <= filled <= DETECT_ROWS,
    ensures
        r == meets_threshold(filled as nat, numeric as nat),
{
    filled > 0 && 10 * numeric >= 7 * filled
}

fn field_class(row: &CsvRecord, j: usize) -> (r: (bool, bool))
    ensures
        r.0 == filled(cell(row@, j as int)),
        r.1 == numeric(cell(row@, j as int)),
{
    if j < row.fields.len() {
        let chars = chars_of(row.fields[j].1.as_str());
        let (a, b) = trim_bounds(&chars);
        if a == b {
            (false, false)
        } else {
            (true, is_float_chars(&slice_chars(&chars, a, b)))
        }
    } else {
        (false, false)
    }
}

/// Index of the first column, in header order, of which at least 70% of the
/// filled fields among the first `DETECT_ROWS` rows are numbers.
pub fn numeric_column_index(width: usize, rows: &Vec<CsvRecord>) -> (r: Option<usize>)
    ensures
        r is None <==> first_numeric_from(rows_view(rows@), width as int, 0) is None,
        r matches Some(j) ==> first_numeric_from(rows_view(rows@), width as int, 0) == Some(
            j as int,
        ) && j < width,
{
    let n: usize = if rows.len() < DETECT_ROWS {
        rows.len()
    } else {
        DETECT_ROWS
    };
    let ghost rv = rows_view(rows@);
    let mut j: usize = 0;
    while j < width
        invariant
            rv == rows_view(rows@),
            n == detect_rows(rows@.len() as int),
            j <= width,
            first_numeric_from(rv, width as int, 0) == first_numeric_from(rv, width as int, j as int),
        decreases width - j,
    {
        let mut f: usize = 0;
        let mut m: usize = 0;
        let mut i: usize = 0;
        while i < n
            invariant
                rv == rows_view(rows@),
                n <= rows@.len(),
                n <= DETECT_ROWS,
                i <= n,
                f == filled_count(rv, j as int, i as int),
                m == numeric_count(rv, j as int, i as int),
                m <= f <= i,
            decreases n - i,
        {
            let (is_filled, is_numeric) = field_class(&rows[i], j);
            if is_filled {
                f = f + 1;
                if is_numeric {
                    m = m + 1;
                }
            }
            i = i + 1;
        }
        if column_qualifies(f, m) {
            return Some(j);
        }
        j = j + 1;
    }
    None
}

/// The name of the first numeric column of a page, if any column qualifies.
pub fn find_first_numeric_column(headers: &Vec<String>, rows: &Vec<CsvRecord>) -> (r: Option<
    String,
>)
    ensures
        r matches Some(name) ==> exists|j: int|
            first_numeric_from(rows_view(rows@), headers@.len() as int, 0) == Some(j) && name@
                == headers@[j]@,
        r is None <==> first_numeric_from(rows_view(rows@), headers@.len() as int, 0) is None,
{
    match numeric_column_index(headers.len(), rows) {
        Some(j) => {
            let name = headers[j].clone();
            assert(name@ == headers@[j as int]@);
            Some(name)
        },
        None => None,
    }
}

/// Stride between sampled rows for a page of `n` rows.
pub open spec fn sample_step(n: int) -> int {
    if n / (THUMBNAIL_SAMPLE_SIZE as int) < 1 {
        1
    } else {
        n / (THUMBNAIL_SAMPLE_SIZE as int)
    }
}

/// The point that a sampled row gives, if its field of column `j` is a number
/// once trimmed; `x` is the row's absolute offset.
pub open spec fn sample_at(row: Seq<(Seq<char>, Seq<char>)>, j: int, x: int) -> Seq<
    (int, Seq<char>),
> {
    let c = cell(row, j);
    if c is Some && float_text(trim_of(c->Some_0)) {
        seq![(x, trim_of(c->Some_0))]
    } else {
        Seq::empty()
    }
}

/// The points sampled from rows `i`, `i + step`, ... of column `j`: each
/// sampled row whose field is a number once trimmed gives the point
/// `(start + row, trimmed field)`.
pub open spec fn samples_from(
    rows: Seq<Seq<(Seq<char>, Seq<char>)>>,
    j: int,
    start: int,
    stride: int,
    i: int,
) -> Seq<(int, Seq<char>)>
    decreases if i < rows.len() {
        rows.len() - i
    } else {
        0
    },
    when stride > 0
{
    if 0 <= i < rows.len() {
        sample_at(rows[i], j, start + i) + samples_from(rows, j, start, stride, i + stride)
    } else {
        Seq::empty()
    }
}

/// The view of a list of sampled points.
pub open spec fn points_view(points: Seq<SamplePoint>) -> Seq<(int, Seq<char>)> {
    points.map_values(|p: SamplePoint| (p.row as int, p.value@))
}

/// The thumbnail points of a page whose first row is `start`: nothing where
/// no column is numeric, else the samples of the first numeric column.
pub open spec fn thumbnail_points(rows: Seq<Seq<(Seq<char>, Seq<char>)>>, width: int, start: int) -> Seq<
    (int, Seq<char>),
> {
    match first_numeric_from(rows, width, 0) {
        None => Seq::empty(),
        Some(j) => samples_from(rows, j, start, sample_step(rows.len() as int), 0),
    }
}

/// Samples the first numeric column of `rows` with a stride that keeps about
/// `THUMBNAIL_SAMPLE_SIZE` points; row `i` of the page is row `start_row + i`
/// of the dataset.
pub fn sample_rows(
    page_index: usize,
    start_row: usize,
    width: usize,
    rows: &Vec<CsvRecord>,
) -> (r: ThumbnailSample)
    requires
        start_row + rows@.len() <= usize::MAX,
    ensures
        r.page_index == page_index,
        points_view(r.points@) == thumbnail_points(
            rows_view(rows@),
            width as int,
            start_row as int,
        ),
{
    let ghost rv = rows_view(rows@);
    let col = match numeric_column_index(width, rows) {
        None => {
            return ThumbnailSample { page_index, points: Vec::new() };
        },
        Some(j) => j,
    };
    let q = rows.len() / THUMBNAIL_SAMPLE_SIZE;
    let step: usize = if q < 1 {
        1
    } else {
        q
    };
    let mut points: Vec<SamplePoint> = Vec::new();
    let mut i: usize = 0;
    while i < rows.len()
        invariant
            rv == rows_view(rows@),
            step >= 1,
            step == sample_step(rows@.len() as int),
            start_row + rows@.len() <= usize::MAX,
            samples_from(rv, col as int, start_row as int, step as int, 0) == points_view(points@)
                + samples_from(rv, col as int, start_row as int, step as int, i as int),
        decreases rows@.len() - i,
    {
        let ghost before = points_view(points@);
        let row = &rows[i];
        assert(rv[i as int] == row@);
        if col < row.fields.len() {
            assert(cell(row@, col as int) == Some(row.fields@[col as int].1@));
            let field = row.fields[col].1.as_str();
            let chars = chars_of(field);
            let (a, b) = trim_bounds(&chars);
            assert(trim_of(row.fields@[col as int].1@) == chars@.subrange(a as int, b as int));
            if is_float_chars(&slice_chars(&chars, a, b)) {
                let t = String::from_str(field.substring_char(a, b));
                points.push(SamplePoint { row: start_row + i, value: t });
                assert(points_view(points@) == before.push((start_row + i, t@)));
            }
        }
        proof {
            let here = sample_at(rv[i as int], col as int, start_row + i);
            assert(points_view(points@) == before + here);
            assert(samples_from(rv, col as int, start_row as int, step as int, i as int) == here
                + samples_from(rv, col as int, start_row as int, step as int, i + step));
            assert(before + here + samples_from(rv, col as int, start_row as int, step as int, i
                + step) == before + (here + samples_from(
                rv,
                col as int,
                start_row as int,
                step as int,
                i + step,
            )));
            if i + step >= rows@.len() {
                assert(samples_from(rv, col as int, start_row as int, step as int, i + step)
                    == Seq::<(int, Seq<char>)>::empty());
                assert(samples_from(rv, col as int, start_row as int, step as int, rows@.len() as int)
                    == Seq::<(int, Seq<char>)>::empty());
            }
        }
        if rows.len() - i <= step {
            i = rows.len();
        } else {
            i = i + step;
        }
    }
    ThumbnailSample { page_index, points }
}

proof fn lemma_scan_len(items: Seq<crate::csv_page::RecordItem>, cur: int, start: int, end: int)
    ensures
        ({
            let lo = if cur > start {
                cur
            } else {
                start
            };
            crate::csv_page::scan_records(items, cur, start, end).0.len() <= if end > lo {
                end - lo
            } else {
                0
            }
        }),
    decreases items.len(),
{
    if items.len() > 0 {
        lemma_scan_len(items.drop_first(), if items[0] is Some {
            cur + 1
        } else {
            cur
        }, start, end);
    }
}

/// Builds the thumbnail of one page of a CSV text: loads the page, then
/// samples its first numeric column.
pub fn generate_thumbnail(content: &str, delimiter: char, page_info: &PageInfo) -> (r: Result<
    ThumbnailSample,
    String,
>)
    ensures
        ({
            let all = crate::csv_page::csv_records(
                vstd::string::StringSliceAdditionalSpecFns::spec_bytes(content),
                crate::csv_page::delimiter_byte(delimiter),
            );
            match r {
                Ok(t) => exists|p: ParsedPage|
                    crate::csv_page::is_csv_page(
                        p,
                        all,
                        page_info.start_row as int,
                        page_info.end_row as int,
                    ) && t.page_index == page_info.page_index && points_view(t.points@)
                        == thumbnail_points(
                        rows_view(p.rows@),
                        p.headers@.len() as int,
                        page_info.start_row as int,
                    ),
                Err(_) => crate::csv_page::csv_load_fails(
                    vstd::string::StringSliceAdditionalSpecFns::spec_bytes(content),
                    delimiter,
                ),
            }
        }),
{
    let parsed = match crate::csv_page::parse_csv_page(
        content,
        delimiter,
        page_info.start_row,
        page_info.end_row,
    ) {
        Ok(p) => p,
        Err(e) => {
            return Err(e);
        },
    };
    proof {
        let all = crate::csv_page::csv_records(
            vstd::string::StringSliceAdditionalSpecFns::spec_bytes(content),
            crate::csv_page::delimiter_byte(delimiter),
        );
        if all.len() > 0 {
            lemma_scan_len(all.drop_first(), 0, page_info.start_row as int, page_info.end_row as int);
        }
    }
    let t = sample_rows(page_info.page_index, page_info.start_row, parsed.headers.len(), &parsed.rows);
    Ok(t)
}

} // verus!
