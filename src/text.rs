use vstd::prelude::*;

verus! {

/// The characters of `s`, in order.
pub fn chars_of(s: &str) -> (r: Vec<char>)
    ensures
        r@ == s@,
{
    let mut out: Vec<char> = Vec::new();
    for c in it: s.chars()
        invariant
            out@ == it.seq().take(it.index() as int),
    {
        out.push(c);
    }
    out
}

/// Relies on String::push: it appends one character.
#[verifier::external_body]
pub(crate) fn push_char(s: &mut String, c: char)
    ensures
        final(s)@ == old(s)@.push(c),
{
    s.push(c)
}

/// Unicode white space, as `char::is_whitespace` reports it.
pub open spec fn is_space(c: char) -> bool {
    let u = c as u32;
    (0x09 <= u <= 0x0d) || u == 0x20 || u == 0x85 || u == 0xa0 || u == 0x1680 || (0x2000 <= u
        <= 0x200a) || u == 0x2028 || u == 0x2029 || u == 0x202f || u == 0x205f || u == 0x3000
}

fn space(c: char) -> (r: bool)
    ensures
        r == is_space(c),
{
    let u = c as u32;
    (0x09 <= u && u <= 0x0d) || u == 0x20 || u == 0x85 || u == 0xa0 || u == 0x1680 || (0x2000
        <= u && u <= 0x200a) || u == 0x2028 || u == 0x2029 || u == 0x202f || u == 0x205f || u
        == 0x3000
}

/// Index of the first non-space character of `s` at or after `i`.
pub open spec fn lead_from(s: Seq<char>, i: int) -> int
    decreases s.len() - i,
{
    if 0 <= i < s.len() && is_space(s[i]) {
        lead_from(s, i + 1)
    } else {
        i
    }
}

/// One past the last non-space character of `s` before `j`, not below `lo`.
pub open spec fn trail_from(s: Seq<char>, j: int, lo: int) -> int
    decreases j - lo,
{
    if lo < j <= s.len() && is_space(s[j - 1]) {
        trail_from(s, j - 1, lo)
    } else {
        j
    }
}

/// `s` without leading and trailing white space, as `str::trim` leaves it.
pub open spec fn trim_of(s: Seq<char>) -> Seq<char> {
    let a = lead_from(s, 0);
    s.subrange(a, trail_from(s, s.len() as int, a))
}

/// The bounds `(a, b)` of `s` without leading and trailing white space.
pub fn trim_bounds(s: &Vec<char>) -> (r: (usize, usize))
    ensures
        r.0 <= r.1 <= s@.len(),
        s@.subrange(r.0 as int, r.1 as int) == trim_of(s@),
{
    let mut a: usize = 0;
    while a < s.len() && space(s[a])
        invariant
            a <= s@.len(),
            lead_from(s@, a as int) == lead_from(s@, 0),
        decreases s@.len() - a,
    {
        a = a + 1;
    }
    let mut b: usize = s.len();
    while b > a && space(s[b - 1])
        invariant
            a <= b <= s@.len(),
            a == lead_from(s@, 0),
            trail_from(s@, b as int, a as int) == trail_from(s@, s@.len() as int, a as int),
        decreases b - a,
    {
        b = b - 1;
    }
    (a, b)
}

/// An ASCII decimal digit.
pub open spec fn is_digit(c: char) -> bool {
    '0' <= c <= '9'
}

/// Index after the run of digits of `s` that starts at `i`.
pub open spec fn digits_end(s: Seq<char>, i: int) -> int
    decreases s.len() - i,
{
    if 0 <= i < s.len() && is_digit(s[i]) {
        digits_end(s, i + 1)
    } else {
        i
    }
}

/// Where the mantissa `Digit* ('.' Digit*)?` of `s` ends, and how many digits it has.
pub open spec fn mantissa_end(s: Seq<char>) -> (int, int) {
    let i = digits_end(s, 0);
    if i < s.len() && s[i] == '.' {
        let k = digits_end(s, i + 1);
        (k, i + (k - i - 1))
    } else {
        (i, i)
    }
}

/// `s[i..]` is an exponent `('e' | 'E') Sign? Digit+`, or empty.
pub open spec fn exponent_from(s: Seq<char>, i: int) -> bool {
    if i >= s.len() {
        true
    } else if s[i] == 'e' || s[i] == 'E' {
        let k = if i + 1 < s.len() && (s[i + 1] == '+' || s[i + 1] == '-') {
            i + 2
        } else {
            i + 1
        };
        digits_end(s, k) > k && digits_end(s, k) == s.len()
    } else {
        false
    }
}

/// `s` is a number `(Digit+ | Digit+ '.' Digit* | Digit* '.' Digit+) Exp?`.
pub open spec fn decimal_text(s: Seq<char>) -> bool {
    let (m, n) = mantissa_end(s);
    n > 0 && exponent_from(s, m)
}

/// `c` is the lower-case ASCII letter `w`, in either case.
pub open spec fn letter_is(c: char, w: char) -> bool {
    c == w || c as u32 == w as u32 - 32
}

/// `s` spells the lower-case word `w`, ignoring ASCII case.
pub open spec fn word_is(s: Seq<char>, w: Seq<char>) -> bool {
    s.len() == w.len() && forall|i: int| 0 <= i < s.len() ==> letter_is(#[trigger] s[i], w[i])
}

/// `s` is an unsigned float: `inf`, `infinity`, `nan` in any case, or a number.
pub open spec fn unsigned_float_text(s: Seq<char>) -> bool {
    word_is(s, seq!['i', 'n', 'f']) || word_is(s, seq!['i', 'n', 'f', 'i', 'n', 'i', 't', 'y'])
        || word_is(s, seq!['n', 'a', 'n']) || decimal_text(s)
}

/// `s` is a floating-point literal as the standard library's float parser
/// accepts it: an optional sign, then an unsigned float.
pub open spec fn float_text(s: Seq<char>) -> bool {
    if s.len() > 0 && (s[0] == '+' || s[0] == '-') {
        unsigned_float_text(s.drop_first())
    } else {
        unsigned_float_text(s)
    }
}

/// The characters `s[lo..hi]` as a vector of their own.
pub fn slice_chars(s: &Vec<char>, lo: usize, hi: usize) -> (r: Vec<char>)
    requires
        lo <= hi <= s@.len(),
    ensures
        r@ == s@.subrange(lo as int, hi as int),
{
    let mut out: Vec<char> = Vec::new();
    let mut i = lo;
    while i < hi
        invariant
            lo <= i <= hi <= s@.len(),
            out@ == s@.subrange(lo as int, i as int),
        decreases hi - i,
    {
        out.push(s[i]);
        i = i + 1;
    }
    out
}

fn digits_from(s: &Vec<char>, i: usize) -> (r: usize)
    requires
        i <= s@.len(),
    ensures
        r == digits_end(s@, i as int),
        i <= r <= s@.len(),
{
    let mut k = i;
    while k < s.len() && '0' <= s[k] && s[k] <= '9'
        invariant
            i <= k <= s@.len(),
            digits_end(s@, k as int) == digits_end(s@, i as int),
        decreases s@.len() - k,
    {
        k = k + 1;
    }
    k
}

fn word_from(s: &Vec<char>, lo: usize, w: &[char]) -> (r: bool)
    requires
        lo <= s@.len(),
        forall|i: int| 0 <= i < w@.len() ==> 'a' <= #[trigger] w@[i] <= 'z',
    ensures
        r == word_is(s@.subrange(lo as int, s@.len() as int), w@),
{
    let ghost t = s@.subrange(lo as int, s@.len() as int);
    if s.len() - lo != w.len() {
        return false;
    }
    let len = s.len();
    let mut i: usize = 0;
    while i < w.len()
        invariant
            len == s@.len(),
            s@.len() - lo == w@.len(),
            lo <= s@.len(),
            t == s@.subrange(lo as int, s@.len() as int),
            i <= w@.len(),
            forall|k: int| 0 <= k < i ==> letter_is(#[trigger] t[k], w@[k]),
            forall|k: int| 0 <= k < w@.len() ==> 'a' <= #[trigger] w@[k] <= 'z',
        decreases w@.len() - i,
    {
        assert(lo + i < len);
        let c = s[lo + i];
        let x = w[i];
        assert('a' <= x);
        assert(t[i as int] == c);
        if !(c == x || c as u32 == x as u32 - 32) {
            assert(!letter_is(t[i as int], w@[i as int]));
            return false;
        }
        i = i + 1;
    }
    true
}

/// Whether `s` is a number `(Digit+ | Digit+ '.' Digit* | Digit* '.' Digit+) Exp?`.
fn is_decimal(s: &Vec<char>) -> (r: bool)
    ensures
        r == decimal_text(s@),
{
    let i = digits_from(s, 0);
    let (m, n) = if i < s.len() && s[i] == '.' {
        let k = digits_from(s, i + 1);
        (k, i + (k - i - 1))
    } else {
        (i, i)
    };
    if n == 0 {
        return false;
    }
    if m == s.len() {
        return true;
    }
    if !(s[m] == 'e' || s[m] == 'E') {
        return false;
    }
    let k: usize = if m + 1 < s.len() && (s[m + 1] == '+' || s[m + 1] == '-') {
        m + 2
    } else {
        m + 1
    };
    let e = digits_from(s, k);
    e > k && e == s.len()
}

/// Whether `s` is a floating-point literal (see `float_text`).
pub fn is_float_chars(s: &Vec<char>) -> (r: bool)
    ensures
        r == float_text(s@),
{
    let signed = s.len() > 0 && (s[0] == '+' || s[0] == '-');
    let start: usize = if signed {
        1
    } else {
        0
    };
    let inf: [char; 3] = ['i', 'n', 'f'];
    let infinity: [char; 8] = ['i', 'n', 'f', 'i', 'n', 'i', 't', 'y'];
    let nan: [char; 3] = ['n', 'a', 'n'];
    assert(inf@ == seq!['i', 'n', 'f']);
    assert(infinity@ == seq!['i', 'n', 'f', 'i', 'n', 'i', 't', 'y']);
    assert(nan@ == seq!['n', 'a', 'n']);
    let ghost u = s@.subrange(start as int, s@.len() as int);
    assert(float_text(s@) == unsigned_float_text(u)) by {
        if signed {
            assert(s@.drop_first() == u);
        } else {
            assert(s@ == u);
        }
    }
    if word_from(s, start, inf.as_slice()) || word_from(s, start, infinity.as_slice()) || word_from(
        s,
        start,
        nan.as_slice(),
    ) {
        return true;
    }
    let rest = slice_chars(s, start, s.len());
    is_decimal(&rest)
}

} // verus!
