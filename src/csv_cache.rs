use std::collections::HashMap;
use vstd::prelude::*;
use vstd::string::StringExecFns;
use vstd::string::StringSliceAdditionalSpecFns;
use vstd::utf8::encode_utf8;

use crate::csv_page::csv_load_fails;
use crate::csv_page::csv_page_result;
use crate::csv_page::is_csv_page;
use crate::csv_page::parse_csv_page_with_progress;
use crate::csv_page::ParsedPage;
use crate::csv_page::csv_records;
use crate::csv_page::delimiter_byte;
use crate::pagination::calculate_pagination;
use crate::pagination::is_plan;
use crate::pagination::PageInfo;
use crate::pagination::PaginationState;
use crate::pagination::ROWS_PER_PAGE;
use crate::row_count::data_row_count;
use crate::row_count::quick_count_rows;
use crate::sniff::delimiter_of;
use crate::sniff::detect_delimiter;
use crate::thumbnail::generate_thumbnail;
use crate::thumbnail::points_view;
use crate::thumbnail::thumbnail_points;
use crate::thumbnail::ThumbnailSample;
use crate::csv_page::rows_view;

verus! {

broadcast use vstd::std_specs::hash::group_hash_axioms;

/// The open CSV dataset: its whole text, path and delimiter, and the pages
/// and thumbnails derived from it so far, keyed by page index.
pub struct CsvCacheManager {
    file_cache: Option<String>,
    page_cache: HashMap<usize, ParsedPage>,
    thumbnail_cache: HashMap<usize, ThumbnailSample>,
    current_file: Option<String>,
    delimiter: char,
}

/// The view of a page.
pub type PageView = (Seq<Seq<char>>, Seq<Seq<(Seq<char>, Seq<char>)>>, usize);

/// The view of a thumbnail.
pub type ThumbnailView = (usize, Seq<(int, Seq<char>)>);

impl CsvCacheManager {
    /// The text of the open file, if one is open.
    pub closed spec fn content(&self) -> Option<Seq<char>> {
        match self.file_cache {
            Some(s) => Some(s@),
            None => None,
        }
    }

    /// The path of the open file, if one is open.
    pub closed spec fn path(&self) -> Option<Seq<char>> {
        match self.current_file {
            Some(s) => Some(s@),
            None => None,
        }
    }

    /// The delimiter pages are parsed with.
    pub closed spec fn delimiter(&self) -> char {
        self.delimiter
    }

    /// The cached pages.
    pub closed spec fn pages(&self) -> Map<usize, PageView> {
        self.page_cache@.map_values(|p: ParsedPage| p@)
    }

    /// The cached thumbnails.
    pub closed spec fn thumbnails(&self) -> Map<usize, ThumbnailView> {
        self.thumbnail_cache@.map_values(|t: ThumbnailSample| t@)
    }

    /// An empty cache with no file open and `,` as delimiter.
    pub fn new() -> (r: Self)
        ensures
            r.content() is None,
            r.path() is None,
            r.delimiter() == ',',
            r.pages() == Map::<usize, PageView>::empty(),
            r.thumbnails() == Map::<usize, ThumbnailView>::empty(),
    {
        let r = CsvCacheManager {
            file_cache: None,
            page_cache: HashMap::new(),
            thumbnail_cache: HashMap::new(),
            current_file: None,
            delimiter: ',',
        };
        assert(r.pages() =~= Map::<usize, PageView>::empty());
        assert(r.thumbnails() =~= Map::<usize, ThumbnailView>::empty());
        r
    }

    /// Forgets the open file and every cached page and thumbnail.
    pub fn clear(&mut self)
        ensures
            final(self).content() is None,
            final(self).path() is None,
            final(self).delimiter() == old(self).delimiter(),
            final(self).pages() == Map::<usize, PageView>::empty(),
            final(self).thumbnails() == Map::<usize, ThumbnailView>::empty(),
    {
        self.file_cache = None;
        self.page_cache.clear();
        self.thumbnail_cache.clear();
        self.current_file = None;
        assert(self.pages() =~= Map::<usize, PageView>::empty());
        assert(self.thumbnails() =~= Map::<usize, ThumbnailView>::empty());
    }

    /// Opens a new dataset: stores its text, path and delimiter and drops
    /// every page and thumbnail of the one before.
    pub fn set_file_content(&mut self, content: String, path: String, delimiter: char)
        ensures
            final(self).content() == Some(content@),
            final(self).path() == Some(path@),
            final(self).delimiter() == delimiter,
            final(self).pages() == Map::<usize, PageView>::empty(),
            final(self).thumbnails() == Map::<usize, ThumbnailView>::empty(),
    {
        self.file_cache = Some(content);
        self.current_file = Some(path);
        self.delimiter = delimiter;
        self.page_cache.clear();
        self.thumbnail_cache.clear();
        assert(self.pages() =~= Map::<usize, PageView>::empty());
        assert(self.thumbnails() =~= Map::<usize, ThumbnailView>::empty());
    }

    /// A copy of the open file's text.
    pub fn get_file_content(&self) -> (r: Option<String>)
        ensures
            match r {
                Some(s) => self.content() == Some(s@),
                None => self.content() is None,
            },
    {
        match &self.file_cache {
            Some(s) => Some(s.clone()),
            None => None,
        }
    }

    /// The delimiter pages are parsed with.
    pub fn get_delimiter(&self) -> (r: char)
        ensures
            r == self.delimiter(),
    {
        self.delimiter
    }

    /// Changes the delimiter and drops every page and thumbnail; the text stays.
    pub fn set_delimiter(&mut self, delimiter: char)
        ensures
            final(self).content() == old(self).content(),
            final(self).path() == old(self).path(),
            final(self).delimiter() == delimiter,
            final(self).pages() == Map::<usize, PageView>::empty(),
            final(self).thumbnails() == Map::<usize, ThumbnailView>::empty(),
    {
        self.delimiter = delimiter;
        self.page_cache.clear();
        self.thumbnail_cache.clear();
        assert(self.pages() =~= Map::<usize, PageView>::empty());
        assert(self.thumbnails() =~= Map::<usize, ThumbnailView>::empty());
    }

    /// Stores page `page_index`, replacing any page stored under it.
    pub fn cache_page(&mut self, page_index: usize, data: ParsedPage)
        ensures
            final(self).pages() == old(self).pages().insert(page_index, data@),
            final(self).content() == old(self).content(),
            final(self).path() == old(self).path(),
            final(self).delimiter() == old(self).delimiter(),
            final(self).thumbnails() == old(self).thumbnails(),
    {
        self.page_cache.insert(page_index, data);
        assert(self.pages() =~= old(self).pages().insert(page_index, data@));
    }

    /// A copy of the page stored under `page_index`, if any.
    pub fn get_cached_page(&self, page_index: usize) -> (r: Option<ParsedPage>)
        ensures
            r is Some <==> self.pages().contains_key(page_index),
            r matches Some(p) ==> p@ == self.pages()[page_index],
    {
        match self.page_cache.get(&page_index) {
            Some(p) => Some(p.duplicate()),
            None => None,
        }
    }

    /// Stores the thumbnail of page `page_index`, replacing any stored before.
    pub fn cache_thumbnail(&mut self, page_index: usize, data: ThumbnailSample)
        ensures
            final(self).thumbnails() == old(self).thumbnails().insert(page_index, data@),
            final(self).content() == old(self).content(),
            final(self).path() == old(self).path(),
            final(self).delimiter() == old(self).delimiter(),
            final(self).pages() == old(self).pages(),
    {
        self.thumbnail_cache.insert(page_index, data);
        assert(self.thumbnails() =~= old(self).thumbnails().insert(page_index, data@));
    }

    /// A copy of the thumbnail stored for page `page_index`, if any.
    pub fn get_cached_thumbnail(&self, page_index: usize) -> (r: Option<ThumbnailSample>)
        ensures
            r is Some <==> self.thumbnails().contains_key(page_index),
            r matches Some(t) ==> t@ == self.thumbnails()[page_index],
    {
        match self.thumbnail_cache.get(&page_index) {
            Some(t) => Some(t.duplicate()),
            None => None,
        }
    }
}

impl Default for CsvCacheManager {
    fn default() -> (r: Self)
        ensures
            r.content() is None,
            r.path() is None,
            r.delimiter() == ',',
            r.pages() == Map::<usize, PageView>::empty(),
            r.thumbnails() == Map::<usize, ThumbnailView>::empty(),
    {
        CsvCacheManager::new()
    }
}

/// The dataset part of two cache states agrees: text, path and delimiter.
pub open spec fn same_dataset(a: CsvCacheManager, b: CsvCacheManager) -> bool {
    &&& a.content() == b.content()
    &&& a.path() == b.path()
    &&& a.delimiter() == b.delimiter()
}

/// Opens a CSV dataset from its text: detects the delimiter, counts the data
/// rows, and replaces the cached dataset. Returns the path, the row count and
/// the delimiter.
pub fn csv_load_file(path: String, content: String, cache: &mut CsvCacheManager) -> (r: (
    String,
    usize,
    char,
))
    ensures
        r.0@ == path@,
        r.1 == data_row_count(encode_utf8(content@)),
        r.2 == delimiter_of(encode_utf8(content@)),
        final(cache).content() == Some(content@),
        final(cache).path() == Some(path@),
        final(cache).delimiter() == r.2,
        final(cache).pages() == Map::<usize, PageView>::empty(),
        final(cache).thumbnails() == Map::<usize, ThumbnailView>::empty(),
{
    let delimiter = detect_delimiter(content.as_str());
    let total_rows = quick_count_rows(content.as_str());
    let stored_path = path.clone();
    cache.set_file_content(content, stored_path, delimiter);
    (path, total_rows, delimiter)
}

/// The page plan for a dataset of `total_rows` rows.
pub fn csv_get_pagination(total_rows: usize) -> (r: PaginationState)
    ensures
        is_plan(r, total_rows as int, ROWS_PER_PAGE as int),
{
    calculate_pagination(total_rows)
}

/// What loading page `page_index` (rows of `info`) does to cache state `c0`,
/// giving `c1` and result `r`: a cached page is returned as stored and the
/// cache stays as it was; with no file open the load fails; otherwise the
/// page is parsed from the text with the current delimiter and, on success,
/// stored under `page_index`.
pub open spec fn csv_load_page_post(
    c0: CsvCacheManager,
    c1: CsvCacheManager,
    page_index: usize,
    info: PageInfo,
    r: Result<ParsedPage, String>,
) -> bool {
    if c0.pages().contains_key(page_index) {
        &&& r is Ok
        &&& r->Ok_0@ == c0.pages()[page_index]
        &&& c1 == c0
    } else {
        match c0.content() {
            None => r is Err && c1 == c0,
            Some(text) => {
                &&& csv_page_result(
                    r,
                    encode_utf8(text),
                    c0.delimiter(),
                    info.start_row as int,
                    info.end_row as int,
                )
                &&& same_dataset(c1, c0)
                &&& c1.thumbnails() == c0.thumbnails()
                &&& match r {
                    Ok(p) => c1.pages() == c0.pages().insert(page_index, p@),
                    Err(_) => c1.pages() == c0.pages(),
                }
            },
        }
    }
}

/// Where a CSV page or thumbnail comes from: the cache, or a parse of the
/// open text with the current delimiter.
pub enum CsvSource<T> {
    Cached(T),
    Parse { content: String, delimiter: char },
}

/// Decides where page `page_index` comes from: the cache where it is
/// stored, else a parse of the open text; fails with no file open.
pub fn csv_page_request(page_index: usize, cache: &CsvCacheManager) -> (r: Result<
    CsvSource<ParsedPage>,
    String,
>)
    ensures
        cache.pages().contains_key(page_index) ==> (r matches Ok(CsvSource::Cached(p)) && p@
            == cache.pages()[page_index]),
        !cache.pages().contains_key(page_index) ==> match cache.content() {
            None => r is Err,
            Some(text) => (r matches Ok(CsvSource::Parse { content, delimiter }) && content@
                == text && delimiter == cache.delimiter()),
        },
{
    if let Some(cached) = cache.get_cached_page(page_index) {
        return Ok(CsvSource::Cached(cached));
    }
    match cache.get_file_content() {
        Some(content) => Ok(CsvSource::Parse { content, delimiter: cache.get_delimiter() }),
        None => Err(String::from_str("No file loaded")),
    }
}

/// Decides where the thumbnail of page `page_index` comes from: the cache
/// where it is stored, else a parse of the open text; fails with no file open.
pub fn csv_thumbnail_request(page_index: usize, cache: &CsvCacheManager) -> (r: Result<
    CsvSource<ThumbnailSample>,
    String,
>)
    ensures
        cache.thumbnails().contains_key(page_index) ==> (r matches Ok(CsvSource::Cached(t)) && t@
            == cache.thumbnails()[page_index]),
        !cache.thumbnails().contains_key(page_index) ==> match cache.content() {
            None => r is Err,
            Some(text) => (r matches Ok(CsvSource::Parse { content, delimiter }) && content@
                == text && delimiter == cache.delimiter()),
        },
{
    if let Some(cached) = cache.get_cached_thumbnail(page_index) {
        return Ok(CsvSource::Cached(cached));
    }
    match cache.get_file_content() {
        Some(content) => Ok(CsvSource::Parse { content, delimiter: cache.get_delimiter() }),
        None => Err(String::from_str("No file loaded")),
    }
}

/// Loads page `page_index` of the open CSV dataset, from the cache where it
/// is stored, else by parsing the text and storing the result. Progress goes
/// to `progress` as `(rows loaded, rows asked for)`.
pub fn csv_load_page<F: Fn(u64, u64)>(
    page_index: usize,
    page_info: &PageInfo,
    cache: &mut CsvCacheManager,
    progress: &F,
) -> (r: Result<ParsedPage, String>)
    requires
        forall|a: u64, b: u64| progress.requires((a, b)),
    ensures
        csv_load_page_post(*old(cache), *final(cache), page_index, *page_info, r),
{
    let (content, delimiter) = match csv_page_request(page_index, cache) {
        Ok(CsvSource::Cached(cached)) => {
            let n = cached.rows.len() as u64;
            progress(n, n);
            return Ok(cached);
        },
        Ok(CsvSource::Parse { content, delimiter }) => (content, delimiter),
        Err(e) => {
            return Err(e);
        },
    };
    let total = page_info.row_count as u64;
    progress(0, total);
    let parsed = parse_csv_page_with_progress(
        content.as_str(),
        delimiter,
        page_info.start_row,
        page_info.end_row,
        progress,
    );
    match parsed {
        Ok(page) => {
            progress(page.rows.len() as u64, total);
            let stored = page.duplicate();
            cache.cache_page(page_index, stored);
            Ok(page)
        },
        Err(e) => Err(e),
    }
}

/// Builds the thumbnail of page `page_index` of the open CSV dataset, from
/// the cache where it is stored, else from a fresh parse of the page, and
/// stores it.
pub fn csv_generate_thumbnail(
    page_index: usize,
    page_info: &PageInfo,
    cache: &mut CsvCacheManager,
) -> (r: Result<ThumbnailSample, String>)
    ensures
        old(cache).thumbnails().contains_key(page_index) ==> r is Ok && r->Ok_0@ == old(
            cache,
        ).thumbnails()[page_index] && *final(cache) == *old(cache),
        !old(cache).thumbnails().contains_key(page_index) ==> match old(cache).content() {
            None => r is Err && *final(cache) == *old(cache),
            Some(text) => {
                let all = csv_records(encode_utf8(text), delimiter_byte(old(cache).delimiter()));
                &&& same_dataset(*final(cache), *old(cache))
                &&& final(cache).pages() == old(cache).pages()
                &&& match r {
                    Ok(t) => {
                        &&& exists|p: ParsedPage|
                            is_csv_page(
                                p,
                                all,
                                page_info.start_row as int,
                                page_info.end_row as int,
                            ) && t.page_index == page_info.page_index && points_view(t.points@)
                                == thumbnail_points(
                                rows_view(p.rows@),
                                p.headers@.len() as int,
                                page_info.start_row as int,
                            )
                        &&& final(cache).thumbnails() == old(cache).thumbnails().insert(
                            page_index,
                            t@,
                        )
                    },
                    Err(_) => csv_load_fails(encode_utf8(text), old(cache).delimiter())
                        && final(cache).thumbnails() == old(cache).thumbnails(),
                }
            },
        },
{
    let (content, delimiter) = match csv_thumbnail_request(page_index, cache) {
        Ok(CsvSource::Cached(cached)) => {
            return Ok(cached);
        },
        Ok(CsvSource::Parse { content, delimiter }) => (content, delimiter),
        Err(e) => {
            return Err(e);
        },
    };
    match generate_thumbnail(content.as_str(), delimiter, page_info) {
        Ok(t) => {
            cache.cache_thumbnail(page_index, t.duplicate());
            Ok(t)
        },
        Err(e) => Err(e),
    }
}

/// Re-reads the open CSV text with a new delimiter: the pages and thumbnails
/// cut with the old one are dropped, and the data rows are counted afresh.
pub fn csv_change_delimiter(new_delimiter: char, cache: &mut CsvCacheManager) -> (r: Result<
    usize,
    String,
>)
    ensures
        match old(cache).content() {
            None => r is Err && *final(cache) == *old(cache),
            Some(text) => {
                &&& r == Ok::<usize, String>(data_row_count(encode_utf8(text)) as usize)
                &&& final(cache).content() == old(cache).content()
                &&& final(cache).path() == old(cache).path()
                &&& final(cache).delimiter() == new_delimiter
                &&& final(cache).pages() == Map::<usize, PageView>::empty()
                &&& final(cache).thumbnails() == Map::<usize, ThumbnailView>::empty()
            },
        },
{
    let content = match cache.get_file_content() {
        Some(c) => c,
        None => {
            return Err(String::from_str("No file loaded"));
        },
    };
    cache.set_delimiter(new_delimiter);
    Ok(quick_count_rows(content.as_str()))
}

/// Closes the open CSV dataset and drops everything cached for it.
pub fn csv_clear_cache(cache: &mut CsvCacheManager)
    ensures
        final(cache).content() is None,
        final(cache).path() is None,
        final(cache).pages() == Map::<usize, PageView>::empty(),
        final(cache).thumbnails() == Map::<usize, ThumbnailView>::empty(),
{
    cache.clear();
}

/// Loading a page twice gives the same page, and the second load is served
/// from the cache: it leaves the cache as the first load left it.
pub proof fn lemma_load_page_twice(
    c0: CsvCacheManager,
    c1: CsvCacheManager,
    c2: CsvCacheManager,
    page_index: usize,
    info: PageInfo,
    r1: Result<ParsedPage, String>,
    r2: Result<ParsedPage, String>,
)
    requires
        csv_load_page_post(c0, c1, page_index, info, r1),
        csv_load_page_post(c1, c2, page_index, info, r2),
        r1 is Ok,
    ensures
        r2 is Ok,
        r2->Ok_0@ == r1->Ok_0@,
        c1.pages().contains_key(page_index),
        c2 == c1,
{
}

/// After the delimiter changes, a page load parses the text afresh with the
/// new delimiter: no page cut with the old one is returned.
pub proof fn lemma_delimiter_change_reparses(
    c0: CsvCacheManager,
    c1: CsvCacheManager,
    c2: CsvCacheManager,
    new_delimiter: char,
    rows: Result<usize, String>,
    page_index: usize,
    info: PageInfo,
    r: Result<ParsedPage, String>,
)
    requires
        c0.content() is Some,
        c1.content() == c0.content(),
        c1.delimiter() == new_delimiter,
        c1.pages() == Map::<usize, PageView>::empty(),
        csv_load_page_post(c1, c2, page_index, info, r),
    ensures
        csv_page_result(
            r,
            encode_utf8(c0.content()->Some_0),
            new_delimiter,
            info.start_row as int,
            info.end_row as int,
        ),
{
}

} // verus!
