use vstd::prelude::*;
use vstd::string::StringSliceAdditionalSpecFns;

verus! {

/// Whether the end of `s` lies inside a quoted field: an odd number of `"`.
pub open spec fn inside_quotes(s: Seq<u8>) -> bool
    decreases s.len(),
{
    if s.len() == 0 {
        false
    } else if s.last() == 34u8 {
        !inside_quotes(s.drop_last())
    } else {
        inside_quotes(s.drop_last())
    }
}

/// Number of `\n` in `s` that stand outside quoted fields.
pub open spec fn line_breaks(s: Seq<u8>) -> nat
    decreases s.len(),
{
    if s.len() == 0 {
        0
    } else if s.last() == 10u8 && !inside_quotes(s.drop_last()) {
        line_breaks(s.drop_last()) + 1
    } else {
        line_breaks(s.drop_last())
    }
}

/// Number of lines of `s`: its unquoted line breaks, and one more for a
/// last line that no `\n` ends.
pub open spec fn line_count(s: Seq<u8>) -> nat {
    if s.len() > 0 && s.last() != 10u8 {
        line_breaks(s) + 1
    } else {
        line_breaks(s)
    }
}

/// Number of data rows of a CSV text: its lines less the header line.
pub open spec fn data_row_count(s: Seq<u8>) -> nat {
    if line_count(s) == 0 {
        0
    } else {
        (line_count(s) - 1) as nat
    }
}

proof fn lemma_line_breaks_bound(s: Seq<u8>)
    ensures
        line_breaks(s) <= s.len(),
    decreases s.len(),
{
    if s.len() > 0 {
        lemma_line_breaks_bound(s.drop_last());
    }
}

/// Counts the data rows of a CSV text in one pass, honouring quoted fields.
pub fn quick_count_rows(content: &str) -> (r: usize)
    ensures
        r == data_row_count(content.spec_bytes()),
{
    let bytes = content.as_bytes();
    let mut row_count: usize = 0;
    let mut in_quotes = false;
    let mut i: usize = 0;
    while i < bytes.len()
        invariant
            bytes@ == content.spec_bytes(),
            i <= bytes@.len(),
            in_quotes == inside_quotes(bytes@.take(i as int)),
            row_count == line_breaks(bytes@.take(i as int)),
        decreases bytes@.len() - i,
    {
        let b = bytes[i];
        assert(bytes@.take(i + 1).drop_last() == bytes@.take(i as int));
        proof {
            lemma_line_breaks_bound(bytes@.take(i as int));
        }
        if b == 34u8 {
            in_quotes = !in_quotes;
        } else if b == 10u8 && !in_quotes {
            row_count = row_count + 1;
        }
        i = i + 1;
    }
    assert(bytes@.take(i as int) == bytes@);
    if bytes.len() > 0 && bytes[bytes.len() - 1] != 10u8 {
        proof {
            lemma_line_breaks_bound(bytes@.drop_last());
        }
        row_count = row_count + 1;
    }
    if row_count == 0 {
        0
    } else {
        row_count - 1
    }
}

} // verus!
