use std::collections::HashMap;
use vstd::pervasive::VecAdditionalExecFns;
use vstd::prelude::*;
use vstd::string::StringExecFns;
use vstd::string::StrSliceExecFns;

use crate::page_key::decimal;
use crate::parquet::any_to_json;
use crate::parquet::cell_encodes;
use crate::parquet::int_text;
use crate::parquet::signed_decimal;
use crate::parquet::CellValue;
use crate::parquet::ParquetColumn;
use crate::parquet::RawCell;
use crate::text::chars_of;
use crate::text::float_text;
use crate::text::is_float_chars;
use crate::text::slice_chars;
use crate::text::trim_bounds;
use crate::text::trim_of;
use crate::thumbnail::meets_threshold;
use crate::thumbnail::column_qualifies;
use crate::thumbnail::detect_rows;
use crate::thumbnail::points_view;
use crate::thumbnail::sample_step;
use crate::thumbnail::SamplePoint;
use crate::thumbnail::ThumbnailSample;
use crate::thumbnail::DETECT_ROWS;
use crate::thumbnail::THUMBNAIL_SAMPLE_SIZE;

verus! {

broadcast use vstd::std_specs::hash::group_hash_axioms;

/// A page of a Parquet file: column names, and each row as its cells paired
/// with their column names.
#[derive(Debug, PartialEq)]
pub struct ParsedPage {
    pub headers: Vec<String>,
    pub rows: Vec<Vec<(String, CellValue)>>,
    pub skipped_rows: usize,
}

/// `p` holds `headers` and the encodings of the cells `raw`, row by row.
pub open spec fn page_encodes(p: ParsedPage, headers: Seq<String>, raw: Seq<Vec<RawCell>>) -> bool {
    &&& p.headers@ == headers
    &&& p.skipped_rows == 0
    &&& p.rows@.len() == raw.len()
    &&& forall|i: int|
        0 <= i < raw.len() ==> {
            let n = if headers.len() <= raw[i]@.len() {
                headers.len()
            } else {
                raw[i]@.len()
            };
            &&& (#[trigger] p.rows@[i])@.len() == n
            &&& forall|j: int|
                0 <= j < n ==> (#[trigger] p.rows@[i]@[j]).0@ == headers[j]@ && cell_encodes(
                    raw[i]@[j],
                    p.rows@[i]@[j].1,
                )
        }
}

/// Builds a page from the column names and the raw cells of each row,
/// encoding every cell.
pub fn build_page(headers: Vec<String>, raw_rows: &Vec<Vec<RawCell>>) -> (r: ParsedPage)
    ensures
        page_encodes(r, headers@, raw_rows@),
{
    let mut rows: Vec<Vec<(String, CellValue)>> = Vec::new();
    let mut i: usize = 0;
    while i < raw_rows.len()
        invariant
            i <= raw_rows@.len(),
            rows@.len() == i,
            forall|k: int|
                0 <= k < i ==> {
                    let n = if headers@.len() <= raw_rows@[k]@.len() {
                        headers@.len()
                    } else {
                        raw_rows@[k]@.len()
                    };
                    &&& (#[trigger] rows@[k])@.len() == n
                    &&& forall|j: int|
                        0 <= j < n ==> (#[trigger] rows@[k]@[j]).0@ == headers@[j]@
                            && cell_encodes(raw_rows@[k]@[j], rows@[k]@[j].1)
                },
        decreases raw_rows@.len() - i,
    {
        let raw = &raw_rows[i];
        let n: usize = if headers.len() <= raw.len() {
            headers.len()
        } else {
            raw.len()
        };
        let mut row: Vec<(String, CellValue)> = Vec::new();
        let mut j: usize = 0;
        while j < n
            invariant
                n <= headers@.len(),
                n <= raw@.len(),
                j <= n,
                row@.len() == j,
                forall|m: int|
                    0 <= m < j ==> (#[trigger] row@[m]).0@ == headers@[m]@ && cell_encodes(
                        raw@[m],
                        row@[m].1,
                    ),
            decreases n - j,
        {
            row.push((headers[j].clone(), any_to_json(&raw[j])));
            j = j + 1;
        }
        rows.push(row);
        i = i + 1;
    }
    ParsedPage { headers, rows, skipped_rows: 0 }
}

/// The cell of column `j` of a row, if the row has one.
pub open spec fn json_cell(row: Seq<(String, CellValue)>, j: int) -> Option<CellValue> {
    if 0 <= j < row.len() {
        Some(row[j].1)
    } else {
        None
    }
}

/// Whether a cell counts as filled: not null, and text that is more than
/// white space.
pub open spec fn json_filled(c: Option<CellValue>) -> bool {
    match c {
        Some(CellValue::Null) => false,
        Some(CellValue::Text(s)) => trim_of(s@).len() > 0,
        Some(_) => true,
        None => false,
    }
}

/// Whether a cell counts as numeric: a number, or text that is a float once trimmed.
pub open spec fn json_numeric(c: Option<CellValue>) -> bool {
    match c {
        Some(CellValue::Int(_)) => true,
        Some(CellValue::UInt(_)) => true,
        Some(CellValue::Number(_)) => true,
        Some(CellValue::Text(s)) => trim_of(s@).len() > 0 && float_text(trim_of(s@)),
        _ => false,
    }
}

/// Filled cells of column `j` among the first `n` rows.
pub open spec fn json_filled_count(rows: Seq<Vec<(String, CellValue)>>, j: int, n: int) -> nat
    decreases n,
{
    if n <= 0 {
        0
    } else {
        json_filled_count(rows, j, n - 1) + if json_filled(json_cell(rows[n - 1]@, j)) {
            1nat
        } else {
            0nat
        }
    }
}

/// Numeric cells of column `j` among the first `n` rows.
pub open spec fn json_numeric_count(rows: Seq<Vec<(String, CellValue)>>, j: int, n: int) -> nat
    decreases n,
{
    if n <= 0 {
        0
    } else {
        json_numeric_count(rows, j, n - 1) + if json_numeric(json_cell(rows[n - 1]@, j)) {
            1nat
        } else {
            0nat
        }
    }
}

/// Column `j` passes the numeric-column test on `rows`.
pub open spec fn json_numeric_column(rows: Seq<Vec<(String, CellValue)>>, j: int) -> bool {
    let n = detect_rows(rows.len() as int);
    meets_threshold(json_filled_count(rows, j, n), json_numeric_count(rows, j, n))
}

/// The first column at or after `j`, of `width`, that passes the test.
pub open spec fn json_first_numeric_from(rows: Seq<Vec<(String, CellValue)>>, width: int, j: int) -> Option<
    int,
>
    decreases width - j,
{
    if j >= width {
        None
    } else if json_numeric_column(rows, j) {
        Some(j)
    } else {
        json_first_numeric_from(rows, width, j + 1)
    }
}

fn text_class(s: &String) -> (r: (bool, bool))
    ensures
        r.0 == (trim_of(s@).len() > 0),
        r.1 == (trim_of(s@).len() > 0 && float_text(trim_of(s@))),
{
    let chars = chars_of(s.as_str());
    let (a, b) = trim_bounds(&chars);
    if a == b {
        (false, false)
    } else {
        (true, is_float_chars(&slice_chars(&chars, a, b)))
    }
}

fn cell_class(row: &Vec<(String, CellValue)>, j: usize) -> (r: (bool, bool))
    ensures
        r.0 == json_filled(json_cell(row@, j as int)),
        r.1 == json_numeric(json_cell(row@, j as int)),
{
    if j >= row.len() {
        return (false, false);
    }
    match &row[j].1 {
        CellValue::Null => (false, false),
        CellValue::Int(_) => (true, true),
        CellValue::UInt(_) => (true, true),
        CellValue::Number(_) => (true, true),
        CellValue::Text(s) => text_class(s),
        _ => (true, false),
    }
}

/// Index of the first column, in header order, of which at least 70% of the
/// filled cells among the first `DETECT_ROWS` rows are numbers.
pub fn json_numeric_column_index(width: usize, rows: &Vec<Vec<(String, CellValue)>>) -> (r: Option<
    usize,
>)
    ensures
        r is None <==> json_first_numeric_from(rows@, width as int, 0) is None,
        r matches Some(j) ==> json_first_numeric_from(rows@, width as int, 0) == Some(j as int)
            && j < width,
{
    let n: usize = if rows.len() < DETECT_ROWS {
        rows.len()
    } else {
        DETECT_ROWS
    };
    let mut j: usize = 0;
    while j < width
        invariant
            n == detect_rows(rows@.len() as int),
            j <= width,
            json_first_numeric_from(rows@, width as int, 0) == json_first_numeric_from(
                rows@,
                width as int,
                j as int,
            ),
        decreases width - j,
    {
        let mut f: usize = 0;
        let mut m: usize = 0;
        let mut i: usize = 0;
        while i < n
            invariant
                n <= rows@.len(),
                n <= DETECT_ROWS,
                i <= n,
                f == json_filled_count(rows@, j as int, i as int),
                m == json_numeric_count(rows@, j as int, i as int),
                m <= f <= i,
            decreases n - i,
        {
            let (is_filled, is_numeric) = cell_class(&rows[i], j);
            if is_filled {
                f = f + 1;
            }
            if is_numeric {
                assert(is_filled);
                m = m + 1;
            }
            i = i + 1;
        }
        if column_qualifies(f, m) {
            return Some(j);
        }
        j = j + 1;
    }
    None
}

/// The name of the first numeric column of a Parquet page, if any qualifies.
pub fn find_first_numeric_column(page: &ParsedPage) -> (r: Option<String>)
    ensures
        r is None <==> json_first_numeric_from(page.rows@, page.headers@.len() as int, 0) is None,
        r matches Some(name) ==> exists|j: int|
            json_first_numeric_from(page.rows@, page.headers@.len() as int, 0) == Some(j)
                && name@ == page.headers@[j]@,
{
    match json_numeric_column_index(page.headers.len(), &page.rows) {
        Some(j) => {
            let name = page.headers[j].clone();
            assert(name@ == page.headers@[j as int]@);
            Some(name)
        },
        None => None,
    }
}

/// The numeric text of a sampled cell: a number's text, or text that is a
/// float once trimmed.
pub open spec fn json_sample_text(c: Option<CellValue>) -> Option<Seq<char>> {
    match c {
        Some(CellValue::Int(x)) => Some(signed_decimal(x as int)),
        Some(CellValue::UInt(x)) => Some(decimal(x as nat)),
        Some(CellValue::Number(t)) => Some(t@),
        Some(CellValue::Text(s)) => if float_text(trim_of(s@)) {
            Some(trim_of(s@))
        } else {
            None
        },
        _ => None,
    }
}

/// The points sampled from rows `i`, `i + stride`, ... of column `j`.
pub open spec fn json_samples_from(
    rows: Seq<Vec<(String, CellValue)>>,
    j: int,
    start: int,
    stride: int,
    i: int,
) -> Seq<(int, Seq<char>)>
    decreases if i < rows.len() {
        rows.len() - i
    } else {
        0
    },
    when stride > 0
{
    if 0 <= i < rows.len() {
        let here = match json_sample_text(json_cell(rows[i]@, j)) {
            Some(t) => seq![(start + i, t)],
            None => Seq::empty(),
        };
        here + json_samples_from(rows, j, start, stride, i + stride)
    } else {
        Seq::empty()
    }
}

/// The thumbnail points of a Parquet page whose first row is `start`.
pub open spec fn json_thumbnail_points(
    rows: Seq<Vec<(String, CellValue)>>,
    width: int,
    start: int,
) -> Seq<(int, Seq<char>)> {
    match json_first_numeric_from(rows, width, 0) {
        None => Seq::empty(),
        Some(j) => json_samples_from(rows, j, start, sample_step(rows.len() as int), 0),
    }
}

fn sample_text(c: &CellValue) -> (r: Option<String>)
    ensures
        match json_sample_text(Some(*c)) {
            Some(t) => r is Some && r->Some_0@ == t,
            None => r is None,
        },
{
    match c {
        CellValue::Int(x) => Some(int_text(*x as i128)),
        CellValue::UInt(x) => {
            let t = int_text(*x as i128);
            Some(t)
        },
        CellValue::Number(t) => Some(t.clone()),
        CellValue::Text(s) => {
            let chars = chars_of(s.as_str());
            let (a, b) = trim_bounds(&chars);
            if is_float_chars(&slice_chars(&chars, a, b)) {
                Some(String::from_str(s.as_str().substring_char(a, b)))
            } else {
                None
            }
        },
        _ => None,
    }
}

/// Samples the first numeric column of a Parquet page whose first row is
/// `start_row`, with a stride that keeps about `THUMBNAIL_SAMPLE_SIZE` points.
pub fn sample_page(page_index: usize, start_row: usize, page: &ParsedPage) -> (r: ThumbnailSample)
    requires
        start_row + page.rows@.len() <= usize::MAX,
    ensures
        r.page_index == page_index,
        points_view(r.points@) == json_thumbnail_points(
            page.rows@,
            page.headers@.len() as int,
            start_row as int,
        ),
{
    let rows = &page.rows;
    let col = match json_numeric_column_index(page.headers.len(), rows) {
        None => {
            return ThumbnailSample { page_index, points: Vec::new() };
        },
        Some(j) => j,
    };
    let q = rows.len() / THUMBNAIL_SAMPLE_SIZE;
    let step: usize = if q < 1 {
        1
    } else {
        q
    };
    let mut points: Vec<SamplePoint> = Vec::new();
    let mut i: usize = 0;
    while i < rows.len()
        invariant
            step >= 1,
            step == sample_step(rows@.len() as int),
            start_row + rows@.len() <= usize::MAX,
            json_samples_from(rows@, col as int, start_row as int, step as int, 0) == points_view(
                points@,
            ) + json_samples_from(rows@, col as int, start_row as int, step as int, i as int),
        decreases rows@.len() - i,
    {
        let ghost before = points_view(points@);
        let row = &rows[i];
        let ghost here = match json_sample_text(json_cell(row@, col as int)) {
            Some(t) => seq![(start_row + i, t)],
            None => Seq::<(int, Seq<char>)>::empty(),
        };
        if col < row.len() {
            match sample_text(&row[col].1) {
                Some(t) => {
                    points.push(SamplePoint { row: start_row + i, value: t });
                    assert(points_view(points@) == before.push((start_row + i, t@)));
                },
                None => {},
            }
        }
        proof {
            assert(points_view(points@) == before + here);
            assert(json_samples_from(rows@, col as int, start_row as int, step as int, i as int)
                == here + json_samples_from(
                rows@,
                col as int,
                start_row as int,
                step as int,
                i + step,
            ));
            assert(before + here + json_samples_from(
                rows@,
                col as int,
                start_row as int,
                step as int,
                i + step,
            ) == before + (here + json_samples_from(
                rows@,
                col as int,
                start_row as int,
                step as int,
                i + step,
            )));
        }
        if rows.len() - i <= step {
            i = rows.len();
        } else {
            i = i + step;
        }
    }
    ThumbnailSample { page_index, points }
}

/// The page stored last under `key` among `entries`, if any.
pub open spec fn lookup_page(entries: Seq<(String, ParsedPage)>, key: Seq<char>) -> Option<ParsedPage>
    decreases entries.len(),
{
    if entries.len() == 0 {
        None
    } else if entries.last().0@ == key {
        Some(entries.last().1)
    } else {
        lookup_page(entries.drop_last(), key)
    }
}

proof fn lemma_lookup_after_update(
    entries: Seq<(String, ParsedPage)>,
    i: int,
    key: String,
    page: ParsedPage,
)
    requires
        0 <= i < entries.len(),
        entries[i].0@ == key@,
        forall|j: int| i < j < entries.len() ==> (#[trigger] entries[j]).0@ != key@,
    ensures
        lookup_page(entries.update(i, (key, page)), key@) == Some(page),
        forall|k: Seq<char>|
            k != key@ ==> lookup_page(entries.update(i, (key, page)), k) == lookup_page(
                entries,
                k,
            ),
    decreases entries.len(),
{
    let e2 = entries.update(i, (key, page));
    if i < entries.len() - 1 {
        assert(e2.drop_last() == entries.drop_last().update(i, (key, page)));
        assert(entries.last() == entries[entries.len() - 1]);
        assert(e2.last() == entries.last());
        lemma_lookup_after_update(entries.drop_last(), i, key, page);
        assert forall|k: Seq<char>| k != key@ implies lookup_page(e2, k) == lookup_page(
            entries,
            k,
        ) by {
            if entries.last().0@ != k {
                assert(lookup_page(e2, k) == lookup_page(e2.drop_last(), k));
                assert(lookup_page(entries, k) == lookup_page(entries.drop_last(), k));
            }
        }
    } else {
        assert(e2.drop_last() == entries.drop_last());
        assert forall|k: Seq<char>| k != key@ implies lookup_page(e2, k) == lookup_page(
            entries,
            k,
        ) by {
            assert(lookup_page(e2, k) == lookup_page(e2.drop_last(), k));
            assert(lookup_page(entries, k) == lookup_page(entries.drop_last(), k));
        }
    }
}

/// The open Parquet dataset: its path, row count and columns, and the pages
/// and thumbnails derived from it so far. The file's content is never held.
pub struct ParquetCacheManager {
    current_file: Option<String>,
    total_rows: Option<u64>,
    columns: Vec<ParquetColumn>,
    page_cache: Vec<(String, ParsedPage)>,
    thumbnail_cache: HashMap<usize, ThumbnailSample>,
}

impl ParquetCacheManager {
    /// The path of the open file, if one is open.
    pub closed spec fn path(&self) -> Option<Seq<char>> {
        match self.current_file {
            Some(s) => Some(s@),
            None => None,
        }
    }

    /// The row count of the open file, if one is open.
    pub closed spec fn row_total(&self) -> Option<u64> {
        self.total_rows
    }

    /// The columns of the open file.
    pub closed spec fn column_list(&self) -> Seq<ParquetColumn> {
        self.columns@
    }

    /// The page cached under `key`, if any.
    pub closed spec fn page(&self, key: Seq<char>) -> Option<ParsedPage> {
        lookup_page(self.page_cache@, key)
    }

    /// The cached thumbnails.
    pub closed spec fn thumbnails(&self) -> Map<usize, (usize, Seq<(int, Seq<char>)>)> {
        self.thumbnail_cache@.map_values(|t: ThumbnailSample| t@)
    }

    /// An empty cache with no file open.
    pub fn new() -> (r: Self)
        ensures
            r.path() is None,
            r.row_total() is None,
            r.column_list().len() == 0,
            forall|k: Seq<char>| r.page(k) is None,
            r.thumbnails() == Map::<usize, (usize, Seq<(int, Seq<char>)>)>::empty(),
    {
        let r = ParquetCacheManager {
            current_file: None,
            total_rows: None,
            columns: Vec::new(),
            page_cache: Vec::new(),
            thumbnail_cache: HashMap::new(),
        };
        assert(r.thumbnails() =~= Map::<usize, (usize, Seq<(int, Seq<char>)>)>::empty());
        r
    }

    /// Forgets the open file and everything cached for it.
    pub fn clear(&mut self)
        ensures
            final(self).path() is None,
            final(self).row_total() is None,
            final(self).column_list().len() == 0,
            forall|k: Seq<char>| final(self).page(k) is None,
            final(self).thumbnails() == Map::<usize, (usize, Seq<(int, Seq<char>)>)>::empty(),
    {
        self.current_file = None;
        self.total_rows = None;
        self.columns = Vec::new();
        self.page_cache = Vec::new();
        self.thumbnail_cache.clear();
        assert(self.thumbnails() =~= Map::<usize, (usize, Seq<(int, Seq<char>)>)>::empty());
    }

    /// Opens a new dataset: records its path, row count and columns, and
    /// drops every page and thumbnail of the one before.
    pub fn set_dataset(&mut self, path: String, total_rows: u64, columns: Vec<ParquetColumn>)
        ensures
            final(self).path() == Some(path@),
            final(self).row_total() == Some(total_rows),
            final(self).column_list() == columns@,
            forall|k: Seq<char>| final(self).page(k) is None,
            final(self).thumbnails() == Map::<usize, (usize, Seq<(int, Seq<char>)>)>::empty(),
    {
        self.current_file = Some(path);
        self.total_rows = Some(total_rows);
        self.columns = columns;
        self.page_cache = Vec::new();
        self.thumbnail_cache.clear();
        assert(self.thumbnails() =~= Map::<usize, (usize, Seq<(int, Seq<char>)>)>::empty());
    }

    /// The path of the open file.
    pub fn get_path(&self) -> (r: Option<String>)
        ensures
            match r {
                Some(p) => self.path() == Some(p@),
                None => self.path() is None,
            },
    {
        match &self.current_file {
            Some(p) => Some(p.clone()),
            None => None,
        }
    }

    /// Stores `page` under `key`, replacing the page stored under it before.
    pub fn cache_page(&mut self, key: String, page: ParsedPage)
        ensures
            final(self).page(key@) == Some(page),
            forall|k: Seq<char>| k != key@ ==> final(self).page(k) == old(self).page(k),
            final(self).path() == old(self).path(),
            final(self).row_total() == old(self).row_total(),
            final(self).column_list() == old(self).column_list(),
            final(self).thumbnails() == old(self).thumbnails(),
    {
        let ghost kv = key@;
        let mut i = self.page_cache.len();
        while i > 0
            invariant
                i <= self.page_cache@.len(),
                *self == *old(self),
                kv == key@,
                forall|j: int| i <= j < self.page_cache@.len() ==> (#[trigger] self.page_cache@[j]).0@
                    != kv,
            decreases i,
        {
            if self.page_cache[i - 1].0 == key {
                proof {
                    lemma_lookup_after_update(self.page_cache@, i - 1, key, page);
                }
                self.page_cache.set(i - 1, (key, page));
                return;
            }
            i = i - 1;
        }
        self.page_cache.push((key, page));
        assert(self.page_cache@.drop_last() == old(self).page_cache@);
    }

    /// The page stored under `key`, if any.
    pub fn get_cached_page(&self, key: &String) -> (r: Option<&ParsedPage>)
        ensures
            match self.page(key@) {
                Some(p) => r == Some(&p),
                None => r is None,
            },
    {
        let mut i = self.page_cache.len();
        assert(self.page_cache@.take(i as int) == self.page_cache@);
        while i > 0
            invariant
                i <= self.page_cache@.len(),
                lookup_page(self.page_cache@, key@) == lookup_page(
                    self.page_cache@.take(i as int),
                    key@,
                ),
            decreases i,
        {
            let ghost t = self.page_cache@.take(i as int);
            assert(t.drop_last() == self.page_cache@.take(i - 1));
            if self.page_cache[i - 1].0 == *key {
                return Some(&self.page_cache[i - 1].1);
            }
            i = i - 1;
        }
        None
    }

    /// Stores the thumbnail of page `page_index`.
    pub fn cache_thumbnail(&mut self, page_index: usize, thumb: ThumbnailSample)
        ensures
            final(self).thumbnails() == old(self).thumbnails().insert(page_index, thumb@),
            forall|k: Seq<char>| final(self).page(k) == old(self).page(k),
            final(self).path() == old(self).path(),
            final(self).row_total() == old(self).row_total(),
            final(self).column_list() == old(self).column_list(),
    {
        self.thumbnail_cache.insert(page_index, thumb);
        assert(self.thumbnails() =~= old(self).thumbnails().insert(page_index, thumb@));
    }

    /// A copy of the thumbnail stored for page `page_index`, if any.
    pub fn get_cached_thumbnail(&self, page_index: usize) -> (r: Option<ThumbnailSample>)
        ensures
            r is Some <==> self.thumbnails().contains_key(page_index),
            r matches Some(t) ==> t@ == self.thumbnails()[page_index],
    {
        match self.thumbnail_cache.get(&page_index) {
            Some(t) => Some(t.duplicate()),
            None => None,
        }
    }
}

impl Default for ParquetCacheManager {
    fn default() -> (r: Self)
        ensures
            r.path() is None,
            forall|k: Seq<char>| r.page(k) is None,
    {
        ParquetCacheManager::new()
    }
}

} // verus!
