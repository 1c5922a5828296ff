use vstd::prelude::*;

use crate::csv_page::capped;
use crate::csv_page::is_csv_page;
use crate::csv_page::record_of;
use crate::csv_page::scan_records;
use crate::csv_page::RecordItem;
use crate::csv_page::ParsedPage;
use crate::pagination::is_page;
use crate::pagination::is_plan;
use crate::pagination::PaginationState;
use crate::pagination::lemma_plan_partitions_rows;

verus! {

/// Every record of `items` is well-formed.
pub open spec fn all_well_formed(items: Seq<RecordItem>) -> bool {
    forall|i: int| 0 <= i < items.len() ==> (#[trigger] items[i]) is Some
}

/// Rows loaded by the first `k` pages of `plan` from the data records `items`.
pub open spec fn loaded_rows(items: Seq<RecordItem>, plan: PaginationState, k: int) -> int
    decreases k,
{
    if k <= 0 {
        0
    } else {
        loaded_rows(items, plan, k - 1) + scan_records(
            items,
            0,
            plan.pages@[k - 1].start_row as int,
            plan.pages@[k - 1].end_row as int,
        ).0.len()
    }
}

proof fn lemma_scan_len_well_formed(items: Seq<RecordItem>, cur: int, start: int, end: int)
    requires
        all_well_formed(items),
        cur >= 0,
    ensures
        ({
            let hi = if end < cur + items.len() {
                end
            } else {
                cur + items.len()
            };
            let lo = if cur > start {
                cur
            } else {
                start
            };
            scan_records(items, cur, start, end).0.len() == if hi > lo {
                hi - lo
            } else {
                0
            }
        }),
    decreases items.len(),
{
    if items.len() > 0 {
        assert(items[0] is Some);
        let rest = items.drop_first();
        assert(all_well_formed(rest)) by {
            assert forall|i: int| 0 <= i < rest.len() implies (#[trigger] rest[i]) is Some by {
                assert(rest[i] == items[i + 1]);
            }
        }
        lemma_scan_len_well_formed(rest, cur + 1, start, end);
    }
}

proof fn lemma_loaded_prefix(items: Seq<RecordItem>, plan: PaginationState, page_size: int, k: int)
    requires
        all_well_formed(items),
        page_size > 0,
        is_plan(plan, items.len() as int, page_size),
        0 <= k <= plan.pages@.len(),
    ensures
        k > 0 ==> loaded_rows(items, plan, k) == plan.pages@[k - 1].end_row,
        k == 0 ==> loaded_rows(items, plan, k) == 0,
    decreases k,
{
    if k > 0 {
        lemma_loaded_prefix(items, plan, page_size, k - 1);
        lemma_plan_partitions_rows(plan, items.len() as int, page_size);
        let p = plan.pages@[k - 1];
        assert(is_page(p, items.len() as int, page_size, k - 1));
        assert(p.start_row < p.end_row);
        assert(p.end_row <= items.len()) by {
            lemma_plan_partitions_rows(plan, items.len() as int, page_size);
            if k - 1 < plan.pages@.len() - 1 {
                assert(p.end_row == plan.pages@[k].start_row);
                assert(plan.pages@[k].start_row < plan.pages@[k].end_row);
                assert(plan.pages@[k].end_row <= plan.pages@[plan.pages@.len() - 1].end_row) by {
                    if k < plan.pages@.len() - 1 {
                        assert(plan.pages@[k].end_row <= plan.pages@[plan.pages@.len()
                            - 1].start_row);
                    }
                }
            }
        }
        lemma_scan_len_well_formed(items, 0, p.start_row as int, p.end_row as int);
        if k > 1 {
            assert(plan.pages@[k - 2].end_row == p.start_row);
        } else {
            assert(p.start_row == 0);
        }
    }
}

/// Loading every page of the plan for a CSV text whose data records are all
/// well-formed, `n` of them, with the plan made for `n` rows, gives `n` rows
/// in all: the pages' row counts add up to the row count.
pub proof fn lemma_pages_load_every_row(
    items: Seq<RecordItem>,
    plan: PaginationState,
    page_size: int,
)
    requires
        all_well_formed(items),
        page_size > 0,
        is_plan(plan, items.len() as int, page_size),
    ensures
        loaded_rows(items, plan, plan.pages@.len() as int) == items.len(),
{
    let n = plan.pages@.len() as int;
    lemma_plan_partitions_rows(plan, items.len() as int, page_size);
    lemma_loaded_prefix(items, plan, page_size, n);
}

/// The rows of a loaded CSV page are those that `scan_records` selects.
pub proof fn lemma_page_rows_are_scanned(
    p: ParsedPage,
    all: Seq<RecordItem>,
    start: int,
    end: int,
)
    requires
        all.len() > 0,
        is_csv_page(p, all, start, end),
    ensures
        p.rows@.len() == scan_records(all.drop_first(), 0, start, end).0.len(),
{
}

/// The fields of the well-formed records of `items`, in order.
pub open spec fn well_formed_records(items: Seq<RecordItem>) -> Seq<Seq<Seq<char>>>
    decreases items.len(),
{
    if items.len() == 0 {
        Seq::empty()
    } else {
        match items[0] {
            Some(f) => seq![f] + well_formed_records(items.drop_first()),
            None => well_formed_records(items.drop_first()),
        }
    }
}

/// The number of malformed records of `items`.
pub open spec fn malformed_count(items: Seq<RecordItem>) -> nat
    decreases items.len(),
{
    if items.len() == 0 {
        0
    } else {
        malformed_count(items.drop_first()) + if items[0] is None {
            1nat
        } else {
            0nat
        }
    }
}

proof fn lemma_scan_whole(items: Seq<RecordItem>, cur: int, end: int)
    requires
        0 <= cur,
        cur + items.len() <= end,
    ensures
        scan_records(items, cur, 0, end) == (well_formed_records(items), malformed_count(items)),
    decreases items.len(),
{
    if items.len() > 0 {
        let next = if items[0] is Some {
            cur + 1
        } else {
            cur
        };
        lemma_scan_whole(items.drop_first(), next, end);
    }
}

proof fn lemma_malformed_counted(items: Seq<RecordItem>, i: int)
    requires
        0 <= i < items.len(),
        items[i] is None,
    ensures
        malformed_count(items) >= 1,
    decreases items.len(),
{
    if i > 0 {
        assert(items.drop_first()[i - 1] is None);
        lemma_malformed_counted(items.drop_first(), i - 1);
    }
}

/// A page that reaches past the last data record, of a CSV text whose reader
/// reports some data record as malformed (as it does for a row whose
/// unbalanced quote leaves it with the wrong number of fields), still comes
/// back: it counts the malformed records as skipped, at least one, and holds
/// every well-formed record, in file order, each paired with the header.
pub proof fn lemma_malformed_rows_skipped_and_reported(
    p: ParsedPage,
    all: Seq<RecordItem>,
    end: int,
    bad: int,
)
    requires
        all.len() > 0,
        is_csv_page(p, all, 0, end),
        all.len() - 1 <= end,
        0 <= bad < all.len() - 1,
        all.drop_first()[bad] is None,
    ensures
        p.skipped_rows >= 1,
        p.skipped_rows == capped(malformed_count(all.drop_first())),
        p.rows@.len() == well_formed_records(all.drop_first()).len(),
        forall|i: int|
            0 <= i < p.rows@.len() ==> #[trigger] p.rows@[i]@ == record_of(
                p.headers.deep_view(),
                well_formed_records(all.drop_first())[i],
            ),
{
    lemma_scan_whole(all.drop_first(), 0, end);
    lemma_malformed_counted(all.drop_first(), bad);
}

} // verus!
