use vstd::prelude::*;

use crate::pagination::PageInfo;
use crate::text::chars_of;
use crate::text::push_char;

verus! {

/// The decimal digit for `d`.
pub open spec fn digit_char(d: int) -> char {
    if d == 0 {
        '0'
    } else if d == 1 {
        '1'
    } else if d == 2 {
        '2'
    } else if d == 3 {
        '3'
    } else if d == 4 {
        '4'
    } else if d == 5 {
        '5'
    } else if d == 6 {
        '6'
    } else if d == 7 {
        '7'
    } else if d == 8 {
        '8'
    } else {
        '9'
    }
}

/// The decimal text of `n`, without leading zeros.
pub open spec fn decimal(n: nat) -> Seq<char>
    decreases n,
{
    if n < 10 {
        seq![digit_char(n as int)]
    } else {
        decimal(n / 10).push(digit_char((n % 10) as int))
    }
}

fn digit(d: u128) -> (r: char)
    requires
        d < 10,
    ensures
        r == digit_char(d as int),
{
    if d == 0 {
        '0'
    } else if d == 1 {
        '1'
    } else if d == 2 {
        '2'
    } else if d == 3 {
        '3'
    } else if d == 4 {
        '4'
    } else if d == 5 {
        '5'
    } else if d == 6 {
        '6'
    } else if d == 7 {
        '7'
    } else if d == 8 {
        '8'
    } else {
        '9'
    }
}

/// Appends the decimal text of `n` to `out`.
pub fn push_decimal(out: &mut String, n: u128)
    ensures
        final(out)@ == old(out)@ + decimal(n as nat),
    decreases n,
{
    if n >= 10 {
        push_decimal(out, n / 10);
    }
    push_char(out, digit(n % 10));
    assert(final(out)@ =~= old(out)@ + decimal(n as nat));
}

/// Lexicographic order of texts by code point, as `String`'s `<` orders them.
pub open spec fn text_lt(a: Seq<char>, b: Seq<char>) -> bool
    decreases a.len(),
{
    if a.len() == 0 {
        b.len() > 0
    } else if b.len() == 0 {
        false
    } else if a[0] != b[0] {
        a[0] < b[0]
    } else {
        text_lt(a.drop_first(), b.drop_first())
    }
}

proof fn lemma_text_lt_irreflexive(a: Seq<char>)
    ensures
        !text_lt(a, a),
    decreases a.len(),
{
    if a.len() > 0 {
        lemma_text_lt_irreflexive(a.drop_first());
    }
}

proof fn lemma_text_lt_transitive(a: Seq<char>, b: Seq<char>, c: Seq<char>)
    requires
        text_lt(a, b),
        text_lt(b, c),
    ensures
        text_lt(a, c),
    decreases a.len(),
{
    if a.len() > 0 && b.len() > 0 && c.len() > 0 && a[0] == b[0] && b[0] == c[0] {
        lemma_text_lt_transitive(a.drop_first(), b.drop_first(), c.drop_first());
    }
}

proof fn lemma_text_lt_total(a: Seq<char>, b: Seq<char>)
    ensures
        a == b || text_lt(a, b) || text_lt(b, a),
    decreases a.len(),
{
    if a.len() > 0 && b.len() > 0 && a[0] == b[0] {
        lemma_text_lt_total(a.drop_first(), b.drop_first());
        if a.drop_first() == b.drop_first() {
            assert(a =~= seq![a[0]] + a.drop_first());
            assert(b =~= seq![b[0]] + b.drop_first());
        }
    } else if a.len() == 0 && b.len() == 0 {
        assert(a =~= b);
    }
}

/// `s` is in strictly increasing order.
pub open spec fn strictly_sorted(s: Seq<Seq<char>>) -> bool {
    forall|i: int, j: int| 0 <= i < j < s.len() ==> text_lt(#[trigger] s[i], #[trigger] s[j])
}

/// The sorted list, without repeats, of the column names in `cols`.
pub open spec fn canonical_columns(cols: Set<Seq<char>>) -> Seq<Seq<char>> {
    choose|s: Seq<Seq<char>>| strictly_sorted(s) && s.to_set() == cols
}

proof fn lemma_sorted_unique(a: Seq<Seq<char>>, b: Seq<Seq<char>>)
    requires
        strictly_sorted(a),
        strictly_sorted(b),
        a.to_set() == b.to_set(),
    ensures
        a == b,
    decreases a.len(),
{
    if a.len() == 0 {
        if b.len() > 0 {
            assert(b.to_set().contains(b[0]));
        }
        assert(a =~= b);
    } else if b.len() == 0 {
        assert(a.to_set().contains(a[0]));
    } else {
        // the first element of each is the least element of the common set
        assert(b.to_set().contains(a[0]));
        assert(a.to_set().contains(b[0]));
        let i = choose|i: int| 0 <= i < b.len() && b[i] == a[0];
        let j = choose|j: int| 0 <= j < a.len() && a[j] == b[0];
        if i > 0 {
            assert(text_lt(b[0], b[i]));
            if j > 0 {
                assert(text_lt(a[0], a[j]));
                lemma_text_lt_transitive(a[0], b[0], a[0]);
                lemma_text_lt_irreflexive(a[0]);
            } else {
                lemma_text_lt_irreflexive(a[0]);
            }
        }
        assert(a[0] == b[0]);
        let a1 = a.drop_first();
        let b1 = b.drop_first();
        assert forall|x: Seq<char>| a1.to_set().contains(x) implies b1.to_set().contains(x) by {
            let k = choose|k: int| 0 <= k < a1.len() && a1[k] == x;
            assert(text_lt(a[0], a[k + 1]));
            assert(a.to_set().contains(x));
            let m = choose|m: int| 0 <= m < b.len() && b[m] == x;
            if m == 0 {
                lemma_text_lt_irreflexive(a[0]);
            }
            assert(b1[m - 1] == x);
        }
        assert forall|x: Seq<char>| b1.to_set().contains(x) implies a1.to_set().contains(x) by {
            let k = choose|k: int| 0 <= k < b1.len() && b1[k] == x;
            assert(text_lt(b[0], b[k + 1]));
            assert(b.to_set().contains(x));
            let m = choose|m: int| 0 <= m < a.len() && a[m] == x;
            if m == 0 {
                lemma_text_lt_irreflexive(b[0]);
            }
            assert(a1[m - 1] == x);
        }
        assert(a1.to_set() =~= b1.to_set());
        lemma_sorted_unique(a1, b1);
        assert(a =~= seq![a[0]] + a1);
        assert(b =~= seq![b[0]] + b1);
    }
}

/// The names of `s` joined with `|`.
pub open spec fn join_bar(s: Seq<Seq<char>>) -> Seq<char>
    decreases s.len(),
{
    if s.len() == 0 {
        Seq::empty()
    } else if s.len() == 1 {
        s[0]
    } else {
        join_bar(s.drop_last()) + seq!['|'] + s.last()
    }
}

/// The column part of a page key: `*` for all columns, else the sorted names
/// without repeats, joined with `|`.
pub open spec fn columns_part(cols: Set<Seq<char>>) -> Seq<char> {
    let s = canonical_columns(cols);
    if s.len() == 0 {
        seq!['*']
    } else {
        join_bar(s)
    }
}

/// The cache key of page `page_index`, starting at row `start` with `count`
/// rows, projected on the columns `cols`: `p=<index>;s=<start>;n=<count>;c=<columns>`.
pub open spec fn page_key(page_index: nat, start: nat, count: nat, cols: Set<Seq<char>>) -> Seq<
    char,
> {
    seq!['p', '='] + decimal(page_index) + seq![';', 's', '='] + decimal(start) + seq![
        ';',
        'n',
        '=',
    ] + decimal(count) + seq![';', 'c', '='] + columns_part(cols)
}

/// The views of a list of names.
pub open spec fn names_view(v: Seq<Vec<char>>) -> Seq<Seq<char>> {
    v.map_values(|c: Vec<char>| c@)
}

fn text_less(a: &Vec<char>, b: &Vec<char>) -> (r: bool)
    ensures
        r == text_lt(a@, b@),
{
    let mut i: usize = 0;
    assert(a@.skip(0) == a@ && b@.skip(0) == b@);
    while i < a.len() && i < b.len() && a[i] == b[i]
        invariant
            i <= a@.len(),
            i <= b@.len(),
            text_lt(a@, b@) == text_lt(a@.skip(i as int), b@.skip(i as int)),
        decreases a@.len() - i,
    {
        assert(a@.skip(i as int).drop_first() == a@.skip(i + 1));
        assert(b@.skip(i as int).drop_first() == b@.skip(i + 1));
        i = i + 1;
    }
    if i == a.len() {
        i < b.len()
    } else if i == b.len() {
        false
    } else {
        a[i] < b[i]
    }
}

/// Inserts `c` into the strictly sorted list `s` unless it is there already.
fn insert_sorted(s: &mut Vec<Vec<char>>, c: Vec<char>)
    requires
        strictly_sorted(names_view(old(s)@)),
    ensures
        strictly_sorted(names_view(final(s)@)),
        names_view(final(s)@).to_set() == names_view(old(s)@).to_set().insert(c@),
{
    let ghost v = names_view(s@);
    let mut i: usize = 0;
    while i < s.len() && text_less(&s[i], &c)
        invariant
            v == names_view(s@),
            i <= s@.len(),
            forall|k: int| 0 <= k < i ==> text_lt(#[trigger] v[k], c@),
        decreases s@.len() - i,
    {
        i = i + 1;
    }
    if i < s.len() && !text_less(&c, &s[i]) {
        proof {
            lemma_text_lt_total(c@, v[i as int]);
            assert(v[i as int] == c@);
            assert(v.to_set().insert(c@) =~= v.to_set());
        }
        return;
    }
    proof {
        if i < v.len() {
            assert(text_lt(c@, v[i as int]));
        }
    }
    s.insert(i, c);
    proof {
        let w = names_view(s@);
        assert(w =~= v.insert(i as int, c@));
        assert forall|a: int, b: int| 0 <= a < b < w.len() implies text_lt(
            #[trigger] w[a],
            #[trigger] w[b],
        ) by {
            if a < i && b == i {
            } else if a < i && b > i {
                assert(w[b] == v[b - 1]);
                if b - 1 > i {
                    lemma_text_lt_transitive(v[a], v[i as int], v[b - 1]);
                }
            } else if a == i && b > i {
                assert(w[b] == v[b - 1]);
                if b - 1 > i {
                    lemma_text_lt_transitive(c@, v[i as int], v[b - 1]);
                }
            } else if a > i {
                assert(w[a] == v[a - 1] && w[b] == v[b - 1]);
            }
        }
        assert(w.to_set() =~= v.to_set().insert(c@)) by {
            assert forall|x: Seq<char>| w.to_set().contains(x) implies v.to_set().insert(
                c@,
            ).contains(x) by {
                let k = choose|k: int| 0 <= k < w.len() && w[k] == x;
                if k < i {
                    assert(v[k] == x);
                } else if k > i {
                    assert(v[k - 1] == x);
                }
            }
            assert forall|x: Seq<char>| v.to_set().insert(c@).contains(x) implies w.to_set().contains(
                x,
            ) by {
                if x == c@ {
                    assert(w[i as int] == x);
                } else {
                    let k = choose|k: int| 0 <= k < v.len() && v[k] == x;
                    if k < i {
                        assert(w[k] == x);
                    } else {
                        assert(w[k + 1] == x);
                    }
                }
            }
        }
    }
}

/// The cache key of a Parquet page: the page's index, first row and row
/// count, and the projected columns sorted and without repeats, so that the
/// order in which the columns were asked for does not matter.
pub fn page_cache_key(page_index: usize, page_info: &PageInfo, columns: &Vec<String>) -> (r: String)
    ensures
        r@ == page_key(
            page_index as nat,
            page_info.start_row as nat,
            page_info.row_count as nat,
            columns.deep_view().to_set(),
        ),
{
    let mut sorted: Vec<Vec<char>> = Vec::new();
    let mut k: usize = 0;
    while k < columns.len()
        invariant
            k <= columns@.len(),
            strictly_sorted(names_view(sorted@)),
            names_view(sorted@).to_set() == columns.deep_view().take(k as int).to_set(),
        decreases columns@.len() - k,
    {
        let c = chars_of(columns[k].as_str());
        insert_sorted(&mut sorted, c);
        assert(columns.deep_view().take(k + 1) == columns.deep_view().take(k as int).push(
            columns@[k as int]@,
        ));
        proof {
            columns.deep_view().take(k as int).lemma_push_to_set_commute(columns@[k as int]@);
        }
        k = k + 1;
    }
    assert(columns.deep_view().take(k as int) == columns.deep_view());
    proof {
        let s = names_view(sorted@);
        let cols = columns.deep_view().to_set();
        lemma_sorted_unique(s, canonical_columns(cols));
    }
    let mut out = String::new();
    push_char(&mut out, 'p');
    push_char(&mut out, '=');
    push_decimal(&mut out, page_index as u128);
    push_char(&mut out, ';');
    push_char(&mut out, 's');
    push_char(&mut out, '=');
    push_decimal(&mut out, page_info.start_row as u128);
    push_char(&mut out, ';');
    push_char(&mut out, 'n');
    push_char(&mut out, '=');
    push_decimal(&mut out, page_info.row_count as u128);
    push_char(&mut out, ';');
    push_char(&mut out, 'c');
    push_char(&mut out, '=');
    let ghost head = out@;
    if sorted.len() == 0 {
        push_char(&mut out, '*');
    } else {
        let mut i: usize = 0;
        while i < sorted.len()
            invariant
                0 < sorted@.len(),
                i <= sorted@.len(),
                i == 0 ==> out@ == head,
                i > 0 ==> out@ == head + join_bar(names_view(sorted@).take(i as int)),
            decreases sorted@.len() - i,
        {
            let ghost before = out@;
            if i > 0 {
                push_char(&mut out, '|');
            }
            let name = &sorted[i];
            let mut j: usize = 0;
            while j < name.len()
                invariant
                    j <= name@.len(),
                    out@ == (if i > 0 {
                        before.push('|')
                    } else {
                        before
                    }) + name@.take(j as int),
                decreases name@.len() - j,
            {
                push_char(&mut out, name[j]);
                assert(name@.take(j + 1) == name@.take(j as int).push(name@[j as int]));
                j = j + 1;
            }
            proof {
                let t = names_view(sorted@).take(i + 1);
                assert(name@.take(j as int) == name@);
                assert(t.last() == name@);
                if i > 0 {
                    assert(t.drop_last() == names_view(sorted@).take(i as int));
                } else {
                    assert(t.len() == 1);
                }
            }
            i = i + 1;
        }
        assert(names_view(sorted@).take(i as int) == names_view(sorted@));
    }
    out
}

/// Asking for the same columns in another order, or with repeats, gives the
/// same page key: the key depends on the set of columns only. In particular
/// `[a, b]` and `[b, a]` hit the same cache entry.
pub proof fn lemma_key_ignores_column_order(
    page_index: nat,
    start: nat,
    count: nat,
    first: Seq<Seq<char>>,
    second: Seq<Seq<char>>,
)
    requires
        first.to_set() == second.to_set(),
    ensures
        page_key(page_index, start, count, first.to_set()) == page_key(
            page_index,
            start,
            count,
            second.to_set(),
        ),
{
}

} // verus!
