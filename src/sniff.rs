use vstd::prelude::*;
use vstd::string::StringSliceAdditionalSpecFns;

verus! {

/// How many leading bytes of a file the delimiter sniffer looks at.
pub const SNIFF_BYTES: usize = 2000;

/// Number of occurrences of byte `c` in `s`.
pub open spec fn count_byte(s: Seq<u8>, c: u8) -> nat
    decreases s.len(),
{
    if s.len() == 0 {
        0
    } else {
        count_byte(s.drop_last(), c) + if s.last() == c {
            1nat
        } else {
            0nat
        }
    }
}

/// Index of the first `\n` in `s` at or after `i`, or `s.len()` if there is none.
pub open spec fn line_end_from(s: Seq<u8>, i: int) -> int
    decreases s.len() - i,
{
    if i >= s.len() {
        s.len() as int
    } else if s[i] == 10u8 {
        i
    } else {
        line_end_from(s, i + 1)
    }
}

/// The bytes of the first line of the sniffed prefix of `text`.
pub open spec fn first_line(text: Seq<u8>) -> Seq<u8> {
    let sample = if text.len() <= SNIFF_BYTES {
        text
    } else {
        text.take(SNIFF_BYTES as int)
    };
    sample.take(line_end_from(sample, 0))
}

/// The delimiter chosen from the counts of `,`, tab, `;` and `|`: the one with
/// the strictly highest count, and `,` where the highest count is shared.
pub open spec fn pick_delimiter(comma: nat, tab: nat, semi: nat, pipe: nat) -> char {
    if tab > comma && tab > semi && tab > pipe {
        '\t'
    } else if semi > comma && semi > tab && semi > pipe {
        ';'
    } else if pipe > comma && pipe > tab && pipe > semi {
        '|'
    } else {
        ','
    }
}

/// The delimiter detected for a file whose bytes are `text`.
pub open spec fn delimiter_of(text: Seq<u8>) -> char {
    let line = first_line(text);
    pick_delimiter(
        count_byte(line, 44u8),
        count_byte(line, 9u8),
        count_byte(line, 59u8),
        count_byte(line, 124u8),
    )
}

/// Picks the CSV delimiter from the first line of the first `SNIFF_BYTES`
/// bytes of `content`.
pub fn detect_delimiter(content: &str) -> (r: char)
    ensures
        r == delimiter_of(content.spec_bytes()),
{
    let bytes = content.as_bytes();
    let limit: usize = if bytes.len() <= SNIFF_BYTES {
        bytes.len()
    } else {
        SNIFF_BYTES
    };
    let ghost sample = if bytes@.len() <= SNIFF_BYTES {
        bytes@
    } else {
        bytes@.take(SNIFF_BYTES as int)
    };
    assert(sample.len() == limit);
    let mut comma: usize = 0;
    let mut tab: usize = 0;
    let mut semi: usize = 0;
    let mut pipe: usize = 0;
    let mut i: usize = 0;
    while i < limit && bytes[i] != 10u8
        invariant
            limit <= bytes@.len(),
            sample == bytes@.take(limit as int),
            i <= limit,
            line_end_from(sample, i as int) == line_end_from(sample, 0),
            comma == count_byte(sample.take(i as int), 44u8),
            tab == count_byte(sample.take(i as int), 9u8),
            semi == count_byte(sample.take(i as int), 59u8),
            pipe == count_byte(sample.take(i as int), 124u8),
            comma <= i && tab <= i && semi <= i && pipe <= i,
        decreases limit - i,
    {
        let b = bytes[i];
        assert(sample.take(i + 1).drop_last() == sample.take(i as int));
        if b == 44u8 {
            comma = comma + 1;
        } else if b == 9u8 {
            tab = tab + 1;
        } else if b == 59u8 {
            semi = semi + 1;
        } else if b == 124u8 {
            pipe = pipe + 1;
        }
        i = i + 1;
    }
    assert(line_end_from(sample, i as int) == i);
    assert(first_line(content.spec_bytes()) == sample.take(i as int));
    if tab > comma && tab > semi && tab > pipe {
        '\t'
    } else if semi > comma && semi > tab && semi > pipe {
        ';'
    } else if pipe > comma && pipe > tab && pipe > semi {
        '|'
    } else {
        ','
    }
}

} // verus!
