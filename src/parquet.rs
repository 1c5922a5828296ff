use vstd::prelude::*;
use vstd::string::StringExecFns;

use crate::page_key::decimal;
use crate::page_key::push_decimal;
use crate::text::push_char;

verus! {

/// Largest integer that a JSON number holds exactly: 2^53 - 1.
pub const MAX_SAFE_INTEGER: u64 = 9007199254740991;

/// A column of a Parquet file: its name and logical type.
#[derive(Debug, Clone, PartialEq)]
pub struct ParquetColumn {
    pub name: String,
    pub dtype: String,
}

/// What opening a Parquet file reports.
#[derive(Debug, Clone, PartialEq)]
pub struct ParquetOpenResult {
    pub path: String,
    pub total_rows: u64,
    pub columns: Vec<ParquetColumn>,
}

/// Unit of a timestamp or duration.
#[derive(Debug, Clone, Copy, PartialEq, Eq)]
pub enum TimeUnit {
    Nanoseconds,
    Microseconds,
    Milliseconds,
}

/// A cell as the columnar reader hands it over, before encoding.
#[derive(Debug, PartialEq)]
pub enum RawCell {
    Null,
    Bool(bool),
    Text(String),
    Int(i64),
    Int128(i128),
    UInt(u64),
    /// The JSON text of a finite float, or `None` for NaN and infinities.
    Float(Option<String>),
    /// Days since the Unix epoch.
    Date(i32),
    /// Nanoseconds since midnight.
    Time(i64),
    Datetime(i64, TimeUnit),
    Duration(i64, TimeUnit),
    Binary(Vec<u8>),
    List(Vec<RawCell>),
    Struct(Vec<(String, RawCell)>),
    /// Any other value, by its display text.
    Other(String),
}

/// A JSON-like cell value.
#[derive(Debug, PartialEq)]
pub enum CellValue {
    Null,
    Bool(bool),
    Int(i64),
    UInt(u64),
    /// A float, by its JSON text.
    Number(String),
    Text(String),
    Array(Vec<CellValue>),
    Object(Vec<(String, CellValue)>),
}

/// The standard base64 text of `bytes`.
pub uninterp spec fn base64_text(bytes: Seq<u8>) -> Seq<char>;

/// The RFC 3339 text, UTC, with nanoseconds, of the instant `secs` seconds and
/// `nanos` nanoseconds after the Unix epoch, or `None` where chrono has no
/// such instant.
pub uninterp spec fn rfc3339_text(secs: int, nanos: int) -> Option<Seq<char>>;

/// Relies on base64's STANDARD engine `encode`: padded standard base64 text.
#[verifier::external_body]
fn base64_encode(bytes: &Vec<u8>) -> (r: String)
    ensures
        r@ == base64_text(bytes@),
{
    base64::Engine::encode(&base64::engine::general_purpose::STANDARD, bytes)
}

/// Relies on chrono's DateTime::<Utc>::from_timestamp (`None` where chrono
/// has no such instant) and its RFC 3339 rendering
/// `to_rfc3339_opts(SecondsFormat::Nanos, true)`: both depend on the
/// arguments alone.
#[verifier::external_body]
fn rfc3339(secs: i64, nanos: u32) -> (r: Option<String>)
    ensures
        match r {
            Some(t) => rfc3339_text(secs as int, nanos as int) == Some(t@),
            None => rfc3339_text(secs as int, nanos as int) is None,
        },
{
    match chrono::DateTime::<chrono::Utc>::from_timestamp(secs, nanos) {
        Some(dt) => Some(dt.to_rfc3339_opts(chrono::SecondsFormat::Nanos, true)),
        None => None,
    }
}

/// The decimal text of the integer `x`, with a `-` where it is negative.
pub open spec fn signed_decimal(x: int) -> Seq<char> {
    if x < 0 {
        seq!['-'] + decimal((-x) as nat)
    } else {
        decimal(x as nat)
    }
}

/// The decimal text of `x`.
pub fn int_text(x: i128) -> (r: String)
    ensures
        r@ == signed_decimal(x as int),
{
    let mut out = String::new();
    if x < 0 {
        push_char(&mut out, '-');
        let m: u128 = if x == i128::MIN {
            (i128::MAX as u128) + 1
        } else {
            (-x) as u128
        };
        push_decimal(&mut out, m);
    } else {
        push_decimal(&mut out, x as u128);
    }
    out
}

/// Per second: the count of units, and the nanoseconds in one unit.
pub open spec fn unit_scale(u: TimeUnit) -> (int, int) {
    match u {
        TimeUnit::Nanoseconds => (1000000000, 1),
        TimeUnit::Microseconds => (1000000, 1000),
        TimeUnit::Milliseconds => (1000, 1000000),
    }
}

/// A timestamp of `ts` units split into whole seconds, rounded down, and the
/// nanoseconds past them, which lie in `0 .. 10^9`.
pub open spec fn timestamp_parts(ts: int, u: TimeUnit) -> (int, int) {
    let (per, nano) = unit_scale(u);
    (ts / per, (ts % per) * nano)
}

/// Splits a timestamp into whole seconds and nanoseconds (see `timestamp_parts`).
pub fn split_timestamp(ts: i64, unit: &TimeUnit) -> (r: (i64, u32))
    ensures
        timestamp_parts(ts as int, *unit) == (r.0 as int, r.1 as int),
        r.1 < 1000000000,
{
    let (per, nano): (u64, u64) = match unit {
        TimeUnit::Nanoseconds => (1000000000, 1),
        TimeUnit::Microseconds => (1000000, 1000),
        TimeUnit::Milliseconds => (1000, 1000000),
    };
    assert(per >= 1000 && per * nano == 1000000000);
    if ts >= 0 {
        let u = ts as u64;
        let q = u / per;
        let rem = u % per;
        assert(rem * nano < 1000000000) by (nonlinear_arith)
            requires
                rem < per,
                per * nano == 1000000000,
        ;
        (q as i64, (rem * nano) as u32)
    } else {
        let m: u64 = if ts == i64::MIN {
            (i64::MAX as u64) + 1
        } else {
            (-ts) as u64
        };
        let q = m / per;
        let rem = m % per;
        assert(m == q * per + rem && rem < per) by (nonlinear_arith)
            requires
                per > 0,
                q == m / per,
                rem == m % per,
        ;
        assert(q <= m / 1000) by (nonlinear_arith)
            requires
                per >= 1000,
                q == m / per,
        ;
        if rem == 0 {
            proof {
                let t = ts as int;
                assert(t == -(q * per) as int);
                assert(t / per as int == -(q as int)) by (nonlinear_arith)
                    requires
                        t == -(q as int) * (per as int),
                        per > 0,
                ;
                assert(t % per as int == 0) by (nonlinear_arith)
                    requires
                        t == -(q as int) * (per as int),
                        per > 0,
                ;
            }
            (-(q as i64), 0)
        } else {
            let back = per - rem;
            assert(back * nano < 1000000000) by (nonlinear_arith)
                requires
                    back < per,
                    per * nano == 1000000000,
            ;
            proof {
                let t = ts as int;
                assert(t == -((q as int) * (per as int) + rem as int));
                assert(t == (-(q as int) - 1) * (per as int) + back as int) by (nonlinear_arith)
                    requires
                        t == -((q as int) * (per as int) + rem as int),
                        back == per - rem,
                ;
                assert(t / per as int == -(q as int) - 1 && t % per as int == back as int)
                    by (nonlinear_arith)
                    requires
                        t == (-(q as int) - 1) * (per as int) + back as int,
                        0 <= back < per,
                ;
            }
            (-(q as i64) - 1, (back * nano) as u32)
        }
    }
}

/// The JSON encoding of a signed 64-bit integer: a number where a JSON
/// number holds it exactly, else its decimal text.
pub open spec fn int_encodes(x: i64, v: CellValue) -> bool {
    if -(MAX_SAFE_INTEGER as int) <= x <= MAX_SAFE_INTEGER {
        v == CellValue::Int(x)
    } else {
        v is Text && v->Text_0@ == signed_decimal(x as int)
    }
}

/// The JSON encoding of an unsigned 64-bit integer: a number where a JSON
/// number holds it exactly, else its decimal text.
pub open spec fn uint_encodes(x: u64, v: CellValue) -> bool {
    if x <= MAX_SAFE_INTEGER {
        v == CellValue::UInt(x)
    } else {
        v is Text && v->Text_0@ == signed_decimal(x as int)
    }
}

/// The text that the name of a time unit reads as.
pub open spec fn unit_name(u: TimeUnit) -> Seq<char> {
    match u {
        TimeUnit::Nanoseconds => seq!['N', 'a', 'n', 'o', 's', 'e', 'c', 'o', 'n', 'd', 's'],
        TimeUnit::Microseconds => seq!['M', 'i', 'c', 'r', 'o', 's', 'e', 'c', 'o', 'n', 'd', 's'],
        TimeUnit::Milliseconds => seq!['M', 'i', 'l', 'l', 'i', 's', 'e', 'c', 'o', 'n', 'd', 's'],
    }
}

/// The JSON encoding of a timestamp: its RFC 3339 text, else its decimal text.
pub open spec fn datetime_text(ts: int, u: TimeUnit) -> Seq<char> {
    let (s, n) = timestamp_parts(ts, u);
    match rfc3339_text(s, n) {
        Some(t) => t,
        None => signed_decimal(ts),
    }
}

/// `v` is the JSON encoding of `raw`.
pub open spec fn cell_encodes(raw: RawCell, v: CellValue) -> bool
    decreases raw,
{
    match raw {
        RawCell::Null => v is Null,
        RawCell::Bool(b) => v == CellValue::Bool(b),
        RawCell::Text(s) => v is Text && v->Text_0@ == s@,
        RawCell::Int(x) => int_encodes(x, v),
        RawCell::Int128(x) => v is Text && v->Text_0@ == signed_decimal(x as int),
        RawCell::UInt(x) => uint_encodes(x, v),
        RawCell::Float(t) => match t {
            Some(n) => v is Number && v->Number_0@ == n@,
            None => v is Null,
        },
        RawCell::Date(d) => v is Text && v->Text_0@ == signed_decimal(d as int),
        RawCell::Time(ns) => v is Text && v->Text_0@ == signed_decimal(ns as int),
        RawCell::Datetime(ts, u) => v is Text && v->Text_0@ == datetime_text(ts as int, u),
        RawCell::Duration(d, u) => v is Text && v->Text_0@ == signed_decimal(d as int) + seq!['(']
            + unit_name(u) + seq![')'],
        RawCell::Binary(b) => v is Text && v->Text_0@ == base64_text(b@),
        RawCell::List(items) => v is Array && v->Array_0@.len() == items@.len() && forall|i: int|
            0 <= i < items@.len() ==> cell_encodes(
                #[trigger] items@[i],
                v->Array_0@[i],
            ),
        RawCell::Struct(fields) => v is Object && v->Object_0@.len() == fields@.len() && forall|
            i: int,
        |
            0 <= i < fields@.len() ==> (#[trigger] fields@[i]).0@ == v->Object_0@[i].0@
                && cell_encodes(fields@[i].1, v->Object_0@[i].1),
        RawCell::Other(s) => v is Text && v->Text_0@ == s@,
    }
}

fn encode_int(x: i64) -> (r: CellValue)
    ensures
        int_encodes(x, r),
{
    if -(MAX_SAFE_INTEGER as i64) <= x && x <= MAX_SAFE_INTEGER as i64 {
        CellValue::Int(x)
    } else {
        CellValue::Text(int_text(x as i128))
    }
}

fn encode_uint(x: u64) -> (r: CellValue)
    ensures
        uint_encodes(x, r),
{
    if x <= MAX_SAFE_INTEGER {
        CellValue::UInt(x)
    } else {
        CellValue::Text(int_text(x as i128))
    }
}

fn append_unit_name(out: &mut String, u: &TimeUnit)
    ensures
        final(out)@ == old(out)@ + unit_name(*u),
{
    match u {
        TimeUnit::Nanoseconds => {
            out.append("Nanoseconds");
            proof {
                reveal_strlit("Nanoseconds");
            }
        },
        TimeUnit::Microseconds => {
            out.append("Microseconds");
            proof {
                reveal_strlit("Microseconds");
            }
        },
        TimeUnit::Milliseconds => {
            out.append("Milliseconds");
            proof {
                reveal_strlit("Milliseconds");
            }
        },
    }
    assert(final(out)@ =~= old(out)@ + unit_name(*u));
}

/// Encodes a cell as a JSON-like value: integers beyond 2^53 - 1 in size
/// become decimal text, timestamps RFC 3339 text, binary base64 text, lists
/// and structs arrays and objects of their encoded parts.
pub fn any_to_json(raw: &RawCell) -> (r: CellValue)
    ensures
        cell_encodes(*raw, r),
    decreases raw,
{
    match raw {
        RawCell::Null => CellValue::Null,
        RawCell::Bool(b) => CellValue::Bool(*b),
        RawCell::Text(s) => CellValue::Text(s.clone()),
        RawCell::Int(x) => encode_int(*x),
        RawCell::Int128(x) => CellValue::Text(int_text(*x)),
        RawCell::UInt(x) => encode_uint(*x),
        RawCell::Float(t) => match t {
            Some(n) => CellValue::Number(n.clone()),
            None => CellValue::Null,
        },
        RawCell::Date(d) => CellValue::Text(int_text(*d as i128)),
        RawCell::Time(ns) => CellValue::Text(int_text(*ns as i128)),
        RawCell::Datetime(ts, u) => {
            let (s, n) = split_timestamp(*ts, u);
            let text = match rfc3339(s, n) {
                Some(t) => t,
                None => int_text(*ts as i128),
            };
            assert(text@ == datetime_text(*ts as int, *u));
            CellValue::Text(text)
        },
        RawCell::Duration(d, u) => {
            let mut text = int_text(*d as i128);
            let ghost digits = text@;
            push_char(&mut text, '(');
            append_unit_name(&mut text, u);
            push_char(&mut text, ')');
            assert(text@ =~= digits + seq!['('] + unit_name(*u) + seq![')']);
            CellValue::Text(text)
        },
        RawCell::Binary(b) => CellValue::Text(base64_encode(b)),
        RawCell::List(items) => {
            let mut out: Vec<CellValue> = Vec::new();
            let mut i: usize = 0;
            while i < items.len()
                invariant
                    *raw == RawCell::List(*items),
                    i <= items@.len(),
                    out@.len() == i,
                    forall|k: int| 0 <= k < i ==> cell_encodes(#[trigger] items@[k], out@[k]),
                decreases items@.len() - i,
            {
                proof {
                    let ghost r = *raw;
                    let ghost v = *items;
                    assert(r == RawCell::List(v));
                    assert(decreases_to!(r => r->List_0));
                    assert(decreases_to!(v => v@));
                    assert(decreases_to!(v@ => v@[i as int]));
                }
                let v = any_to_json(&items[i]);
                out.push(v);
                i = i + 1;
            }
            CellValue::Array(out)
        },
        RawCell::Struct(fields) => {
            let mut out: Vec<(String, CellValue)> = Vec::new();
            let mut i: usize = 0;
            while i < fields.len()
                invariant
                    *raw == RawCell::Struct(*fields),
                    i <= fields@.len(),
                    out@.len() == i,
                    forall|k: int|
                        0 <= k < i ==> (#[trigger] fields@[k]).0@ == out@[k].0@ && cell_encodes(
                            fields@[k].1,
                            out@[k].1,
                        ),
                decreases fields@.len() - i,
            {
                proof {
                    let ghost r = *raw;
                    let ghost v = *fields;
                    assert(r == RawCell::Struct(v));
                    assert(decreases_to!(r => r->Struct_0));
                    assert(decreases_to!(v => v@));
                    assert(decreases_to!(v@ => v@[i as int]));
                    assert(decreases_to!(v@[i as int] => v@[i as int].1));
                }
                let v = any_to_json(&fields[i].1);
                out.push((fields[i].0.clone(), v));
                i = i + 1;
            }
            CellValue::Object(out)
        },
        RawCell::Other(s) => CellValue::Text(s.clone()),
    }
}

} // verus!
