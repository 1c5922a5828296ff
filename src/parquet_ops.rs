use vstd::prelude::*;
use vstd::string::StringExecFns;
use vstd::string::StringSliceAdditionalSpecFns;
use vstd::utf8::encode_utf8;

use crate::page_key::page_cache_key;
use crate::page_key::page_key;
use crate::pagination::PageInfo;
use crate::parquet::RawCell;
use crate::parquet_cache::build_page;
use crate::parquet_cache::json_thumbnail_points;
use crate::parquet_cache::page_encodes;
use crate::parquet_cache::sample_page;
use crate::parquet_cache::ParquetCacheManager;
use crate::parquet_cache::ParsedPage;
use crate::text::chars_of;
use crate::thumbnail::points_view;
use crate::thumbnail::ThumbnailSample;

verus! {

/// A read of rows `offset .. offset + length` of a Parquet file, projected
/// on `columns` (all columns where empty), whose page goes under `key`.
#[derive(Debug, Clone, PartialEq)]
pub struct PageRead {
    pub key: String,
    pub path: String,
    pub columns: Vec<String>,
    pub offset: i64,
    pub length: u32,
}

/// Where a page comes from: the cache, under this key, or a read of the file.
#[derive(Debug, Clone, PartialEq)]
pub enum PageSource {
    Cached(String),
    Read(PageRead),
}

/// Where a thumbnail comes from: the cache, or a read of rows
/// `offset .. offset + length` of the file at `path`.
#[derive(Debug, Clone, PartialEq)]
pub enum ThumbnailSource {
    Cached(ThumbnailSample),
    Read { path: String, offset: i64, length: u32 },
}

/// The row offset and length of a page as the columnar engine takes them:
/// a signed 64-bit offset and a 32-bit length.
pub fn slice_bounds(info: &PageInfo) -> (r: Result<(i64, u32), String>)
    ensures
        r is Ok <==> info.start_row <= i64::MAX && info.row_count <= u32::MAX,
        r matches Ok((o, l)) ==> o == info.start_row && l == info.row_count,
{
    if info.row_count as u64 > u32::MAX as u64 {
        return Err(String::from_str("Page row_count is too large"));
    }
    if info.start_row as u64 > i64::MAX as u64 {
        return Err(String::from_str("Page start_row is too large"));
    }
    Ok((info.start_row as i64, info.row_count as u32))
}

/// The projection asked for: the given columns, or none (all) where absent.
pub open spec fn projection(columns: Option<Vec<String>>) -> Seq<Seq<char>> {
    match columns {
        Some(c) => c.deep_view(),
        None => Seq::empty(),
    }
}

/// Decides where page `page_index` (rows of `page_info`, projected on
/// `columns`) comes from: the cache where a page with the same key is stored,
/// else a read of the open file. Fails with no file open, and where the page
/// bounds do not fit the columnar engine.
pub fn parquet_page_request(
    page_index: usize,
    page_info: &PageInfo,
    columns: Option<Vec<String>>,
    cache: &ParquetCacheManager,
) -> (r: Result<PageSource, String>)
    ensures
        ({
            let key = page_key(
                page_index as nat,
                page_info.start_row as nat,
                page_info.row_count as nat,
                projection(columns).to_set(),
            );
            if cache.page(key) is Some {
                (r matches Ok(PageSource::Cached(k)) && k@ == key)
            } else if cache.path() is None {
                r is Err
            } else if page_info.start_row > i64::MAX || page_info.row_count > u32::MAX {
                r is Err
            } else {
                (r matches Ok(PageSource::Read(p)) && p.key@ == key && Some(p.path@) == cache.path()
                    && p.columns.deep_view() == projection(columns) && p.offset
                    == page_info.start_row && p.length == page_info.row_count)
            }
        }),
{
    let cols: Vec<String> = match columns {
        Some(c) => c,
        None => Vec::new(),
    };
    assert(cols.deep_view() == projection(columns)) by {
        if columns is None {
            assert(cols.deep_view() =~= Seq::<Seq<char>>::empty());
        }
    }
    let key = page_cache_key(page_index, page_info, &cols);
    if cache.get_cached_page(&key).is_some() {
        return Ok(PageSource::Cached(key));
    }
    let path = match cache.get_path() {
        Some(p) => p,
        None => {
            return Err(String::from_str("No parquet file loaded"));
        },
    };
    let (offset, length) = match slice_bounds(page_info) {
        Ok(b) => b,
        Err(e) => {
            return Err(e);
        },
    };
    Ok(PageSource::Read(PageRead { key, path, columns: cols, offset, length }))
}

/// Once a page is stored for one projection, asking for the same columns in
/// another order, or with repeats, finds it in the cache.
pub proof fn lemma_reordered_projection_hits_cache(
    cache: ParquetCacheManager,
    page_index: usize,
    page_info: PageInfo,
    first: Seq<Seq<char>>,
    second: Seq<Seq<char>>,
)
    requires
        first.to_set() == second.to_set(),
        cache.page(
            page_key(
                page_index as nat,
                page_info.start_row as nat,
                page_info.row_count as nat,
                first.to_set(),
            ),
        ) is Some,
    ensures
        cache.page(
            page_key(
                page_index as nat,
                page_info.start_row as nat,
                page_info.row_count as nat,
                second.to_set(),
            ),
        ) is Some,
{
}

/// Stores the page read for `key`: the column names and the raw cells of each
/// row, encoded.
pub fn parquet_store_page(
    cache: &mut ParquetCacheManager,
    key: String,
    headers: Vec<String>,
    raw_rows: &Vec<Vec<RawCell>>,
)
    ensures
        (final(cache).page(key@) matches Some(p) && page_encodes(p, headers@, raw_rows@)),
        forall|k: Seq<char>| k != key@ ==> final(cache).page(k) == old(cache).page(k),
        final(cache).path() == old(cache).path(),
        final(cache).row_total() == old(cache).row_total(),
        final(cache).column_list() == old(cache).column_list(),
        final(cache).thumbnails() == old(cache).thumbnails(),
{
    let page = build_page(headers, raw_rows);
    cache.cache_page(key, page);
}

/// Decides where the thumbnail of page `page_index` comes from: the cache,
/// else a read of the page's rows from the open file.
pub fn parquet_thumbnail_request(
    page_index: usize,
    page_info: &PageInfo,
    cache: &ParquetCacheManager,
) -> (r: Result<ThumbnailSource, String>)
    ensures
        cache.thumbnails().contains_key(page_index) ==> (r matches Ok(
            ThumbnailSource::Cached(t),
        ) && t@ == cache.thumbnails()[page_index]),
        !cache.thumbnails().contains_key(page_index) ==> if cache.path() is None {
            r is Err
        } else if page_info.start_row > i64::MAX || page_info.row_count > u32::MAX {
            r is Err
        } else {
            (r matches Ok(ThumbnailSource::Read { path, offset, length }) && Some(path@)
                == cache.path() && offset == page_info.start_row && length == page_info.row_count)
        },
{
    if let Some(t) = cache.get_cached_thumbnail(page_index) {
        return Ok(ThumbnailSource::Cached(t));
    }
    let path = match cache.get_path() {
        Some(p) => p,
        None => {
            return Err(String::from_str("No parquet file loaded"));
        },
    };
    let (offset, length) = match slice_bounds(page_info) {
        Ok(b) => b,
        Err(e) => {
            return Err(e);
        },
    };
    Ok(ThumbnailSource::Read { path, offset, length })
}

/// Builds and stores the thumbnail of page `page_index` from the rows read
/// for it: the samples of its first numeric column, or no points where no
/// column is numeric.
pub fn parquet_store_thumbnail(
    cache: &mut ParquetCacheManager,
    page_index: usize,
    page_info: &PageInfo,
    headers: Vec<String>,
    raw_rows: &Vec<Vec<RawCell>>,
) -> (r: Result<ThumbnailSample, String>)
    ensures
        match r {
            Ok(t) => {
                &&& exists|p: ParsedPage|
                    page_encodes(p, headers@, raw_rows@) && t.page_index == page_index
                        && points_view(t.points@) == json_thumbnail_points(
                        p.rows@,
                        headers@.len() as int,
                        page_info.start_row as int,
                    )
                &&& final(cache).thumbnails() == old(cache).thumbnails().insert(page_index, t@)
            },
            Err(_) => page_info.start_row + raw_rows@.len() > usize::MAX && *final(cache) == *old(
                cache,
            ),
        },
        forall|k: Seq<char>| final(cache).page(k) == old(cache).page(k),
        final(cache).path() == old(cache).path(),
        final(cache).row_total() == old(cache).row_total(),
        final(cache).column_list() == old(cache).column_list(),
{
    if raw_rows.len() > usize::MAX - page_info.start_row {
        return Err(String::from_str("Page row_count is too large"));
    }
    let page = build_page(headers, raw_rows);
    let t = sample_page(page_index, page_info.start_row, &page);
    cache.cache_thumbnail(page_index, t.duplicate());
    Ok(t)
}

/// The sum of `counts`.
pub open spec fn sum_of(counts: Seq<u64>) -> int
    decreases counts.len(),
{
    if counts.len() == 0 {
        0
    } else {
        sum_of(counts.drop_last()) + counts.last()
    }
}

proof fn lemma_sum_monotone(counts: Seq<u64>, i: int)
    requires
        0 <= i <= counts.len(),
    ensures
        sum_of(counts.take(i)) <= sum_of(counts),
    decreases counts.len() - i,
{
    if i < counts.len() {
        lemma_sum_monotone(counts, i + 1);
        assert(counts.take(i + 1).drop_last() == counts.take(i));
    } else {
        assert(counts.take(i) == counts);
    }
}

/// The row count of a Parquet file from the row counts of its row groups:
/// their sum, or an error where it does not fit 64 bits.
pub fn sum_row_counts(counts: &Vec<u64>) -> (r: Result<u64, String>)
    ensures
        r is Ok <==> sum_of(counts@) <= u64::MAX,
        r matches Ok(n) ==> n == sum_of(counts@),
{
    let mut total: u64 = 0;
    let mut i: usize = 0;
    while i < counts.len()
        invariant
            i <= counts@.len(),
            total == sum_of(counts@.take(i as int)),
        decreases counts@.len() - i,
    {
        assert(counts@.take(i + 1).drop_last() == counts@.take(i as int));
        if counts[i] > u64::MAX - total {
            proof {
                lemma_sum_monotone(counts@, i + 1);
            }
            return Err(String::from_str("Parquet row count does not fit 64 bits"));
        }
        total = total + counts[i];
        i = i + 1;
    }
    assert(counts@.take(i as int) == counts@);
    Ok(total)
}

/// Options of a CSV to Parquet conversion; each has a default.
#[derive(Debug, Clone, PartialEq)]
pub struct CsvToParquetOptions {
    pub delimiter: Option<String>,
    pub has_header: Option<bool>,
    pub infer_schema_length: Option<usize>,
    pub compression: Option<String>,
}

/// Compression of the Parquet file written.
#[derive(Debug, Clone, Copy, PartialEq, Eq)]
pub enum Compression {
    Zstd,
    Snappy,
    Uncompressed,
}

/// The settings a conversion runs with.
#[derive(Debug, Clone, PartialEq)]
pub struct ConversionPlan {
    pub delimiter: u8,
    pub has_header: bool,
    pub infer_schema_length: Option<usize>,
    pub compression: Compression,
}

/// The delimiter byte of a conversion: the first byte of the given text,
/// else `,`.
pub open spec fn plan_delimiter(d: Option<String>) -> u8 {
    match d {
        Some(s) => if encode_utf8(s@).len() > 0 {
            encode_utf8(s@)[0]
        } else {
            44u8
        },
        None => 44u8,
    }
}

/// The compression of a conversion: snappy or none where so named, zstd
/// otherwise and by default.
pub open spec fn plan_compression(c: Option<String>) -> Compression {
    match c {
        Some(s) => if s@ == seq!['s', 'n', 'a', 'p', 'p', 'y'] {
            Compression::Snappy
        } else if s@ == seq!['u', 'n', 'c', 'o', 'm', 'p', 'r', 'e', 's', 's', 'e', 'd'] {
            Compression::Uncompressed
        } else {
            Compression::Zstd
        },
        None => Compression::Zstd,
    }
}

fn spells(s: &String, w: &[char]) -> (r: bool)
    ensures
        r == (s@ == w@),
{
    let c = chars_of(s.as_str());
    if c.len() != w.len() {
        return false;
    }
    let mut i: usize = 0;
    while i < c.len()
        invariant
            c@ == s@,
            c@.len() == w@.len(),
            i <= c@.len(),
            forall|k: int| 0 <= k < i ==> c@[k] == w@[k],
        decreases c@.len() - i,
    {
        if c[i] != w[i] {
            return false;
        }
        i = i + 1;
    }
    assert(c@ =~= w@);
    true
}

/// Resolves the options of a conversion: `,` as delimiter, a header row,
/// and zstd compression unless the options say otherwise.
pub fn conversion_plan(options: Option<CsvToParquetOptions>) -> (r: ConversionPlan)
    ensures
        match options {
            Some(o) => {
                &&& r.delimiter == plan_delimiter(o.delimiter)
                &&& r.has_header == match o.has_header {
                    Some(b) => b,
                    None => true,
                }
                &&& r.infer_schema_length == o.infer_schema_length
                &&& r.compression == plan_compression(o.compression)
            },
            None => {
                &&& r.delimiter == 44u8
                &&& r.has_header
                &&& r.infer_schema_length is None
                &&& r.compression == Compression::Zstd
            },
        },
{
    let o = match options {
        Some(o) => o,
        None => CsvToParquetOptions {
            delimiter: None,
            has_header: None,
            infer_schema_length: None,
            compression: None,
        },
    };
    let delimiter: u8 = match &o.delimiter {
        Some(s) => {
            let b = s.as_str().as_bytes();
            if b.len() > 0 {
                b[0]
            } else {
                44u8
            }
        },
        None => 44u8,
    };
    let has_header = match o.has_header {
        Some(b) => b,
        None => true,
    };
    let snappy: [char; 6] = ['s', 'n', 'a', 'p', 'p', 'y'];
    let uncompressed: [char; 12] = ['u', 'n', 'c', 'o', 'm', 'p', 'r', 'e', 's', 's', 'e', 'd'];
    assert(snappy@ == seq!['s', 'n', 'a', 'p', 'p', 'y']);
    assert(uncompressed@ == seq!['u', 'n', 'c', 'o', 'm', 'p', 'r', 'e', 's', 's', 'e', 'd']);
    let compression = match &o.compression {
        Some(s) => if spells(s, snappy.as_slice()) {
            Compression::Snappy
        } else if spells(s, uncompressed.as_slice()) {
            Compression::Uncompressed
        } else {
            Compression::Zstd
        },
        None => Compression::Zstd,
    };
    ConversionPlan {
        delimiter,
        has_header,
        infer_schema_length: o.infer_schema_length,
        compression,
    }
}

} // verus!
