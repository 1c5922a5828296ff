use vstd::prelude::*;

verus! {

/// Rows per page used by the viewer.
pub const ROWS_PER_PAGE: usize = 200000;

/// One page of the logical row space: rows `start_row .. end_row`.
#[derive(Debug, Clone, Copy, PartialEq, Eq)]
pub struct PageInfo {
    pub page_index: usize,
    pub start_row: usize,
    pub end_row: usize,
    pub row_count: usize,
}

/// The full set of page descriptors for a dataset.
#[derive(Debug, Clone)]
pub struct PaginationState {
    pub total_rows: usize,
    pub total_pages: usize,
    pub current_page: usize,
    pub pages: Vec<PageInfo>,
}

/// Number of pages of `page_size` rows needed to hold `total_rows` rows.
pub open spec fn page_count(total_rows: int, page_size: int) -> int
    recommends
        page_size > 0,
{
    if total_rows % page_size == 0 {
        total_rows / page_size
    } else {
        total_rows / page_size + 1
    }
}

/// First row of page `i`.
pub open spec fn page_start(page_size: int, i: int) -> int {
    i * page_size
}

/// One past the last row of page `i`.
pub open spec fn page_end(total_rows: int, page_size: int, i: int) -> int {
    if (i + 1) * page_size < total_rows {
        (i + 1) * page_size
    } else {
        total_rows
    }
}

/// The page that holds `row`.
pub open spec fn page_of(row: int, page_size: int) -> int {
    row / page_size
}

/// Row `row` lies in page `p`.
pub open spec fn holds_row(p: PageInfo, row: int) -> bool {
    p.start_row <= row < p.end_row
}

/// `p` is the descriptor of page `i`.
pub open spec fn is_page(p: PageInfo, total_rows: int, page_size: int, i: int) -> bool {
    &&& p.page_index == i
    &&& p.start_row == page_start(page_size, i)
    &&& p.end_row == page_end(total_rows, page_size, i)
    &&& p.row_count == p.end_row - p.start_row
}

/// `s` is the plan for `total_rows` rows in pages of `page_size`.
pub open spec fn is_plan(s: PaginationState, total_rows: int, page_size: int) -> bool {
    &&& s.total_rows == total_rows
    &&& s.total_pages == page_count(total_rows, page_size)
    &&& s.current_page == 0
    &&& s.pages@.len() == s.total_pages
    &&& forall|i: int|
        0 <= i < s.pages@.len() ==> #[trigger] is_page(s.pages@[i], total_rows, page_size, i)
}

proof fn lemma_page_bounds(total_rows: int, page_size: int, i: int)
    requires
        total_rows >= 0,
        page_size > 0,
        0 <= i < page_count(total_rows, page_size),
    ensures
        0 <= page_start(page_size, i) < page_end(total_rows, page_size, i) <= total_rows,
        page_end(total_rows, page_size, i) - page_start(page_size, i) <= page_size,
        i + 1 == page_count(total_rows, page_size) <==> page_end(total_rows, page_size, i)
            == total_rows,
        i + 1 < page_count(total_rows, page_size) ==> page_end(total_rows, page_size, i) == (i
            + 1) * page_size,
{
    let q = total_rows / page_size;
    let r = total_rows % page_size;
    assert(total_rows == q * page_size + r && 0 <= r < page_size) by (nonlinear_arith)
        requires
            page_size > 0,
            q == total_rows / page_size,
            r == total_rows % page_size,
    ;
    assert((i + 1) * page_size == i * page_size + page_size) by (nonlinear_arith);
    if i < q {
        assert((i + 1) * page_size <= q * page_size) by (nonlinear_arith)
            requires
                i + 1 <= q,
                page_size > 0,
        ;
        assert(i * page_size >= 0) by (nonlinear_arith)
            requires
                i >= 0,
                page_size > 0,
        ;
        assert((i + 2) * page_size == (i + 1) * page_size + page_size) by (nonlinear_arith);
        if i + 1 == q {
            assert((i + 1) * page_size == q * page_size);
        }
        if i + 1 < q {
            assert((i + 2) * page_size <= q * page_size) by (nonlinear_arith)
                requires
                    i + 2 <= q,
                    page_size > 0,
            ;
        }
    } else {
        assert(i == q && r > 0);
        assert(i * page_size >= 0) by (nonlinear_arith)
            requires
                i >= 0,
                page_size > 0,
        ;
    }
}

/// Splits `total_rows` rows into consecutive pages of at most `page_size` rows.
pub fn plan_pages(total_rows: usize, page_size: usize) -> (r: PaginationState)
    requires
        page_size > 0,
    ensures
        is_plan(r, total_rows as int, page_size as int),
{
    let q = total_rows / page_size;
    let total_pages: usize = if total_rows % page_size == 0 {
        q
    } else {
        assert(q < total_rows) by (nonlinear_arith)
            requires
                page_size > 0,
                q == total_rows / page_size,
                total_rows % page_size != 0,
        ;
        q + 1
    };
    let mut pages: Vec<PageInfo> = Vec::new();
    let mut i: usize = 0;
    let mut start_row: usize = 0;
    while i < total_pages
        invariant
            page_size > 0,
            total_pages == page_count(total_rows as int, page_size as int),
            i <= total_pages,
            pages@.len() == i,
            i < total_pages ==> start_row == page_start(page_size as int, i as int),
            i < total_pages ==> start_row < total_rows,
            forall|k: int|
                0 <= k < i ==> #[trigger] is_page(
                    pages@[k],
                    total_rows as int,
                    page_size as int,
                    k,
                ),
        decreases total_pages - i,
    {
        proof {
            lemma_page_bounds(total_rows as int, page_size as int, i as int);
        }
        let end_row: usize = if total_rows - start_row > page_size {
            start_row + page_size
        } else {
            total_rows
        };
        assert((i + 1) * page_size == i * page_size + page_size) by (nonlinear_arith);
        pages.push(PageInfo { page_index: i, start_row, end_row, row_count: end_row - start_row });
        i = i + 1;
        start_row = end_row;
        proof {
            if i < total_pages {
                lemma_page_bounds(total_rows as int, page_size as int, i as int);
            }
        }
    }
    PaginationState { total_rows, total_pages, current_page: 0, pages }
}

/// The viewer's page plan for `total_rows` rows, in pages of `ROWS_PER_PAGE`.
pub fn calculate_pagination(total_rows: usize) -> (r: PaginationState)
    ensures
        is_plan(r, total_rows as int, ROWS_PER_PAGE as int),
{
    plan_pages(total_rows, ROWS_PER_PAGE)
}

/// The pages of a plan partition the rows `0 .. total_rows`: each page is
/// non-empty, the first starts at row 0, each starts where the one before it
/// ends, the last ends at `total_rows`, no two overlap, and every row lies in
/// exactly one page.
pub proof fn lemma_plan_partitions_rows(s: PaginationState, total_rows: int, page_size: int)
    requires
        total_rows >= 0,
        page_size > 0,
        is_plan(s, total_rows, page_size),
    ensures
        forall|i: int|
            0 <= i < s.pages@.len() ==> s.pages@[i].start_row < #[trigger] s.pages@[i].end_row,
        s.pages@.len() > 0 ==> s.pages@[0].start_row == 0,
        s.pages@.len() > 0 ==> s.pages@[s.pages@.len() - 1].end_row == total_rows,
        s.pages@.len() == 0 <==> total_rows == 0,
        forall|i: int|
            0 <= i < s.pages@.len() - 1 ==> #[trigger] s.pages@[i].end_row == s.pages@[i
                + 1].start_row,
        forall|i: int, j: int|
            0 <= i < j < s.pages@.len() ==> #[trigger] s.pages@[i].end_row
                <= #[trigger] s.pages@[j].start_row,
        forall|row: int|
            0 <= row < total_rows ==> 0 <= #[trigger] page_of(row, page_size) < s.pages@.len()
                && s.pages@[page_of(row, page_size)].start_row <= row < s.pages@[page_of(
                row,
                page_size,
            )].end_row,
        forall|row: int, i: int|
            0 <= i < s.pages@.len() && #[trigger] holds_row(s.pages@[i], row) ==> i == page_of(
                row,
                page_size,
            ),
{
    let n = s.pages@.len() as int;
    assert forall|i: int| 0 <= i < n implies s.pages@[i].start_row < #[trigger] s.pages@[i].end_row
        && s.pages@[i].end_row <= total_rows && s.pages@[i].start_row >= 0 by {
        assert(is_page(s.pages@[i], total_rows, page_size, i));
        lemma_page_bounds(total_rows, page_size, i);
    }
    if n > 0 {
        assert(is_page(s.pages@[0], total_rows, page_size, 0));
        assert(is_page(s.pages@[n - 1], total_rows, page_size, n - 1));
        lemma_page_bounds(total_rows, page_size, n - 1);
    }
    if total_rows == 0 {
        assert(page_count(0, page_size) == 0) by (nonlinear_arith)
            requires
                page_size > 0,
        ;
    }
    if n == 0 {
        assert(total_rows == 0) by (nonlinear_arith)
            requires
                page_size > 0,
                total_rows >= 0,
                page_count(total_rows, page_size) == 0,
        ;
    }
    assert forall|i: int| 0 <= i < n - 1 implies #[trigger] s.pages@[i].end_row == s.pages@[i
        + 1].start_row by {
        assert(is_page(s.pages@[i], total_rows, page_size, i));
        assert(is_page(s.pages@[i + 1], total_rows, page_size, i + 1));
        lemma_page_bounds(total_rows, page_size, i);
    }
    assert forall|i: int, j: int| 0 <= i < j < n implies #[trigger] s.pages@[i].end_row
        <= #[trigger] s.pages@[j].start_row by {
        assert(is_page(s.pages@[i], total_rows, page_size, i));
        assert(is_page(s.pages@[j], total_rows, page_size, j));
        lemma_page_bounds(total_rows, page_size, i);
        assert(s.pages@[i].end_row <= (i + 1) * page_size);
        assert((i + 1) * page_size <= j * page_size) by (nonlinear_arith)
            requires
                i + 1 <= j,
                page_size > 0,
        ;
    }
    assert forall|row: int| 0 <= row < total_rows implies 0 <= #[trigger] page_of(row, page_size)
        < n && s.pages@[page_of(row, page_size)].start_row <= row < s.pages@[page_of(
        row,
        page_size,
    )].end_row by {
        let i = page_of(row, page_size);
        assert(i * page_size <= row < (i + 1) * page_size && 0 <= i) by (nonlinear_arith)
            requires
                page_size > 0,
                i == row / page_size,
                row >= 0,
        ;
        assert(i < page_count(total_rows, page_size)) by (nonlinear_arith)
            requires
                page_size > 0,
                i == row / page_size,
                0 <= row < total_rows,
        ;
        assert(is_page(s.pages@[i], total_rows, page_size, i));
    }
    assert forall|row: int, i: int|
        0 <= i < n && #[trigger] holds_row(s.pages@[i], row) implies i == page_of(row, page_size) by {
        let j = page_of(row, page_size);
        assert(0 <= j < n && s.pages@[j].start_row <= row < s.pages@[j].end_row);
        if i < j {
            assert(s.pages@[i].end_row <= s.pages@[j].start_row);
        } else if j < i {
            assert(s.pages@[j].end_row <= s.pages@[i].start_row);
        }
    }
}

} // verus!
