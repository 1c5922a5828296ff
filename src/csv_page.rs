use vstd::prelude::*;
use vstd::string::StringExecFns;
use vstd::string::StringSliceAdditionalSpecFns;

verus! {

/// The csv crate's reader, which verified code holds but does not look into.
#[verifier::external_type_specification]
#[verifier::external_body]
#[verifier::reject_recursive_types(R)]
pub struct ExCsvReader<R>(csv::Reader<R>);

/// A progress report of a long operation: `current` of `total` done.
#[derive(Debug, Clone, PartialEq)]
pub struct LoadProgress {
    pub current: usize,
    pub total: usize,
    pub message: String,
}

/// Rows between two progress reports while a page loads.
pub const PROGRESS_EVERY: u64 = 2000;

/// A record as the CSV reader yields it: its fields, or `None` where the
/// reader reported the record as malformed.
pub type RecordItem = Option<Seq<Seq<char>>>;

/// Every record that a CSV reader over `text` with field delimiter
/// `delimiter` yields, in order, the header record first.
pub uninterp spec fn csv_records(text: Seq<u8>, delimiter: u8) -> Seq<RecordItem>;

/// The records that reader `r` has yet to yield.
pub uninterp spec fn csv_pending(r: csv::Reader<&[u8]>) -> Seq<RecordItem>;

/// The item view of a record read from the reader.
pub open spec fn item_view(item: Option<Vec<String>>) -> RecordItem {
    match item {
        Some(fields) => Some(fields.deep_view()),
        None => None,
    }
}

/// Relies on csv::ReaderBuilder (delimiter, headers on by default) and
/// csv::Reader::headers: the reader yields the records of `text` in order; the
/// first is the header record, which `headers` reads, and an empty text has
/// no records and an empty header.
#[verifier::external_body]
fn open_csv<'a>(text: &'a [u8], delimiter: u8) -> (r: (
    csv::Reader<&'a [u8]>,
    Result<Vec<String>, String>,
))
    ensures
        ({
            let all = csv_records(text@, delimiter);
            match r.1 {
                Ok(h) => {
                    &&& all.len() == 0 ==> h@.len() == 0 && csv_pending(r.0).len() == 0
                    &&& all.len() > 0 ==> all[0] == Some(h.deep_view()) && csv_pending(r.0)
                        == all.drop_first()
                },
                Err(_) => all.len() > 0 && all[0] is None,
            }
        }),
{
    let mut reader = csv::ReaderBuilder::new().delimiter(delimiter).from_reader(text);
    let headers = match reader.headers() {
        Ok(h) => Ok(h.iter().map(|s| s.to_string()).collect()),
        Err(e) => Err(e.to_string()),
    };
    (reader, headers)
}

/// Relies on csv::Reader::read_record: it yields the next pending record, an
/// error for a malformed one, and `false` once none is left.
#[verifier::external_body]
fn next_record(r: &mut csv::Reader<&[u8]>) -> (item: Option<Option<Vec<String>>>)
    ensures
        csv_pending(*old(r)).len() == 0 ==> item is None && csv_pending(*final(r)).len() == 0,
        csv_pending(*old(r)).len() > 0 ==> item is Some && item_view(item->Some_0) == csv_pending(
            *old(r),
        )[0] && csv_pending(*final(r)) == csv_pending(*old(r)).drop_first(),
{
    let mut record = csv::StringRecord::new();
    match r.read_record(&mut record) {
        Ok(true) => Some(Some(record.iter().map(|s| s.to_string()).collect())),
        Ok(false) => None,
        Err(_) => Some(None),
    }
}

/// A parsed row: each header paired with the field at its position.
#[derive(Debug, Clone, PartialEq)]
pub struct CsvRecord {
    pub fields: Vec<(String, String)>,
}

impl View for CsvRecord {
    type V = Seq<(Seq<char>, Seq<char>)>;

    open spec fn view(&self) -> Seq<(Seq<char>, Seq<char>)> {
        self.fields@.map_values(|p: (String, String)| (p.0@, p.1@))
    }
}

/// The rows of one page, with the count of malformed records passed over.
#[derive(Debug, Clone, PartialEq)]
pub struct ParsedPage {
    pub headers: Vec<String>,
    pub rows: Vec<CsvRecord>,
    pub skipped_rows: usize,
}

/// The views of a list of rows.
pub open spec fn rows_view(rows: Seq<CsvRecord>) -> Seq<Seq<(Seq<char>, Seq<char>)>> {
    rows.map_values(|r: CsvRecord| r@)
}

impl View for ParsedPage {
    type V = (Seq<Seq<char>>, Seq<Seq<(Seq<char>, Seq<char>)>>, usize);

    open spec fn view(&self) -> Self::V {
        (self.headers.deep_view(), rows_view(self.rows@), self.skipped_rows)
    }
}

fn copy_strings(v: &Vec<String>) -> (r: Vec<String>)
    ensures
        r.deep_view() == v.deep_view(),
{
    let mut out: Vec<String> = Vec::new();
    let mut i: usize = 0;
    while i < v.len()
        invariant
            i <= v@.len(),
            out@.len() == i,
            forall|k: int| 0 <= k < i ==> #[trigger] out@[k]@ == v@[k]@,
        decreases v@.len() - i,
    {
        out.push(v[i].clone());
        i = i + 1;
    }
    assert(out.deep_view() =~= v.deep_view());
    out
}

impl CsvRecord {
    /// A copy of this row.
    pub fn duplicate(&self) -> (r: CsvRecord)
        ensures
            r@ == self@,
    {
        let mut out: Vec<(String, String)> = Vec::new();
        let mut i: usize = 0;
        while i < self.fields.len()
            invariant
                i <= self.fields@.len(),
                out@.len() == i,
                forall|k: int|
                    0 <= k < i ==> (#[trigger] out@[k]).0@ == self.fields@[k].0@ && out@[k].1@
                        == self.fields@[k].1@,
            decreases self.fields@.len() - i,
        {
            out.push((self.fields[i].0.clone(), self.fields[i].1.clone()));
            i = i + 1;
        }
        let r = CsvRecord { fields: out };
        assert(r@ =~= self@);
        r
    }
}

impl ParsedPage {
    /// A copy of this page.
    pub fn duplicate(&self) -> (r: ParsedPage)
        ensures
            r@ == self@,
    {
        let mut rows: Vec<CsvRecord> = Vec::new();
        let mut i: usize = 0;
        while i < self.rows.len()
            invariant
                i <= self.rows@.len(),
                rows@.len() == i,
                forall|k: int| 0 <= k < i ==> #[trigger] rows@[k]@ == self.rows@[k]@,
            decreases self.rows@.len() - i,
        {
            rows.push(self.rows[i].duplicate());
            i = i + 1;
        }
        let r = ParsedPage {
            headers: copy_strings(&self.headers),
            rows,
            skipped_rows: self.skipped_rows,
        };
        assert(rows_view(r.rows@) =~= rows_view(self.rows@));
        r
    }
}

/// The row that pairs `headers` with `fields` by position, as far as both reach.
pub open spec fn record_of(headers: Seq<Seq<char>>, fields: Seq<Seq<char>>) -> Seq<
    (Seq<char>, Seq<char>),
> {
    let n = if headers.len() <= fields.len() {
        headers.len()
    } else {
        fields.len()
    };
    Seq::new(n, |i: int| (headers[i], fields[i]))
}

/// Walks the data records `items` with `cur` well-formed records already
/// seen: collects the well-formed records whose ordinal lies in
/// `start .. end`, stops at the first well-formed record at or past `end`,
/// and counts the malformed records met before stopping.
pub open spec fn scan_records(items: Seq<RecordItem>, cur: int, start: int, end: int) -> (
    Seq<Seq<Seq<char>>>,
    nat,
)
    decreases items.len(),
{
    if items.len() == 0 {
        (Seq::empty(), 0)
    } else {
        let rest = items.drop_first();
        match items[0] {
            None => {
                let r = scan_records(rest, cur, start, end);
                (r.0, r.1 + 1)
            },
            Some(f) => if cur >= end {
                (Seq::empty(), 0)
            } else {
                let r = scan_records(rest, cur + 1, start, end);
                (if cur >= start {
                    seq![f] + r.0
                } else {
                    r.0
                }, r.1)
            },
        }
    }
}

/// `n`, or `usize::MAX` where `n` is larger.
pub open spec fn capped(n: nat) -> nat {
    if n > usize::MAX {
        usize::MAX as nat
    } else {
        n
    }
}

/// `c` is a delimiter the CSV reader takes: one ASCII character.
pub open spec fn ascii_delimiter(c: char) -> bool {
    (c as u32) < 128
}

/// The byte of an ASCII delimiter.
pub open spec fn delimiter_byte(c: char) -> u8 {
    (c as u32) as u8
}

/// Loading a page of `text` with `delimiter` fails: the delimiter is not one
/// ASCII character, or the header record is malformed.
pub open spec fn csv_load_fails(text: Seq<u8>, delimiter: char) -> bool {
    let all = csv_records(text, delimiter_byte(delimiter));
    !ascii_delimiter(delimiter) || (all.len() > 0 && all[0] is None)
}

/// `p` is rows `start .. end` of the data records of a CSV text whose
/// reader yields `all`, header record first.
pub open spec fn is_csv_page(p: ParsedPage, all: Seq<RecordItem>, start: int, end: int) -> bool {
    if all.len() == 0 {
        &&& p.headers@.len() == 0
        &&& p.rows@.len() == 0
        &&& p.skipped_rows == 0
    } else {
        let h = p.headers.deep_view();
        let scan = scan_records(all.drop_first(), 0, start, end);
        &&& all[0] == Some(h)
        &&& p.rows@.len() == scan.0.len()
        &&& forall|i: int|
            0 <= i < p.rows@.len() ==> #[trigger] p.rows@[i]@ == record_of(h, scan.0[i])
        &&& p.skipped_rows == capped(scan.1)
    }
}

/// The outcome of loading rows `start .. end` of `text` with `delimiter`:
/// the page, or an error exactly where `csv_load_fails`.
pub open spec fn csv_page_result(
    r: Result<ParsedPage, String>,
    text: Seq<u8>,
    delimiter: char,
    start: int,
    end: int,
) -> bool {
    let all = csv_records(text, delimiter_byte(delimiter));
    match r {
        Ok(p) => !csv_load_fails(text, delimiter) && is_csv_page(p, all, start, end),
        Err(_) => csv_load_fails(text, delimiter),
    }
}

fn make_record(headers: &Vec<String>, fields: &Vec<String>) -> (r: CsvRecord)
    ensures
        r@ == record_of(headers.deep_view(), fields.deep_view()),
{
    let n: usize = if headers.len() <= fields.len() {
        headers.len()
    } else {
        fields.len()
    };
    let mut out: Vec<(String, String)> = Vec::new();
    let mut i: usize = 0;
    while i < n
        invariant
            n <= headers@.len(),
            n <= fields@.len(),
            i <= n,
            out@.len() == i,
            forall|k: int|
                0 <= k < i ==> (#[trigger] out@[k]).0@ == headers@[k]@ && out@[k].1@
                    == fields@[k]@,
        decreases n - i,
    {
        out.push((headers[i].clone(), fields[i].clone()));
        i = i + 1;
    }
    let r = CsvRecord { fields: out };
    assert(r@ =~= record_of(headers.deep_view(), fields.deep_view()));
    r
}

/// Loads data rows `start_row .. end_row` of a CSV text, reporting progress
/// as `(rows loaded, rows asked for)`: once at the start, after every
/// `PROGRESS_EVERY` rows, and once at the end. Malformed records are passed
/// over and counted; reading stops at the first record past the page.
pub fn parse_csv_page_with_progress<F: Fn(u64, u64)>(
    content: &str,
    delimiter: char,
    start_row: usize,
    end_row: usize,
    progress: &F,
) -> (r: Result<ParsedPage, String>)
    requires
        forall|a: u64, b: u64| progress.requires((a, b)),
    ensures
        csv_page_result(r, content.spec_bytes(), delimiter, start_row as int, end_row as int),
{
    if delimiter as u32 >= 128 {
        return Err(String::from_str("The delimiter must be a single ASCII character"));
    }
    let d: u8 = delimiter as u32 as u8;
    let (mut reader, header_result) = open_csv(content.as_bytes(), d);
    let ghost all = csv_records(content.spec_bytes(), d);
    let headers = match header_result {
        Ok(h) => h,
        Err(e) => {
            let mut msg = String::from_str("Failed to read headers: ");
            msg.append(e.as_str());
            return Err(msg);
        },
    };
    let ghost h = headers.deep_view();
    let total: u64 = if end_row > start_row {
        (end_row - start_row) as u64
    } else {
        0
    };
    progress(0, total);
    let mut rows: Vec<CsvRecord> = Vec::new();
    let mut skipped_rows: usize = 0;
    let mut current_row: usize = 0;
    let mut added: u64 = 0;
    let ghost body = if all.len() == 0 {
        Seq::<RecordItem>::empty()
    } else {
        all.drop_first()
    };
    let ghost mut taken: Seq<Seq<Seq<char>>> = Seq::empty();
    let ghost mut skipped_total: nat = 0;
    loop
        invariant_except_break
            scan_records(body, 0, start_row as int, end_row as int) == (
                taken + scan_records(
                    csv_pending(reader),
                    current_row as int,
                    start_row as int,
                    end_row as int,
                ).0,
                skipped_total + scan_records(
                    csv_pending(reader),
                    current_row as int,
                    start_row as int,
                    end_row as int,
                ).1,
            ),
        invariant
            all.len() == 0 ==> h.len() == 0 && body.len() == 0,
            all.len() > 0 ==> all[0] == Some(h),
            forall|a: u64, b: u64| progress.requires((a, b)),
            headers.deep_view() == h,
            current_row <= end_row,
            added <= rows@.len(),
            rows@.len() == taken.len(),
            forall|i: int| 0 <= i < rows@.len() ==> #[trigger] rows@[i]@ == record_of(h, taken[i]),
            skipped_rows == capped(skipped_total),
        ensures
            scan_records(body, 0, start_row as int, end_row as int) == (taken, skipped_total),
        decreases csv_pending(reader).len(),
    {
        let ghost before = csv_pending(reader);
        match next_record(&mut reader) {
            None => {
                break;
            },
            Some(None) => {
                proof {
                    skipped_total = skipped_total + 1;
                }
                if skipped_rows < usize::MAX {
                    skipped_rows = skipped_rows + 1;
                }
            },
            Some(Some(fields)) => {
                if current_row >= end_row {
                    break;
                }
                if current_row >= start_row {
                    let rec = make_record(&headers, &fields);
                    rows.push(rec);
                    proof {
                        let ghost rest = scan_records(
                            before.drop_first(),
                            current_row + 1,
                            start_row as int,
                            end_row as int,
                        );
                        assert(taken + (seq![fields.deep_view()] + rest.0) == taken.push(
                            fields.deep_view(),
                        ) + rest.0);
                        taken = taken.push(fields.deep_view());
                    }
                    if added < u64::MAX {
                        added = added + 1;
                    }
                    if added % PROGRESS_EVERY == 0 {
                        progress(added, total);
                    }
                }
                current_row = current_row + 1;
            },
        }
    }
    progress(added, total);
    Ok(ParsedPage { headers, rows, skipped_rows })
}

/// Loads data rows `start_row .. end_row` of a CSV text; see
/// `parse_csv_page_with_progress`.
pub fn parse_csv_page(content: &str, delimiter: char, start_row: usize, end_row: usize) -> (r:
    Result<ParsedPage, String>)
    ensures
        csv_page_result(r, content.spec_bytes(), delimiter, start_row as int, end_row as int),
{
    let quiet = |_current: u64, _total: u64| {};
    parse_csv_page_with_progress(content, delimiter, start_row, end_row, &quiet)
}

} // verus!
