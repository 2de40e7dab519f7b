//! Character-level helpers shared by the parsers of this crate.
//!
//! Strings are modelled by their view, a `Seq<char>`. Each executable helper
//! here states its result over that view.
use vstd::prelude::*;
use vstd::string::*;

verus! {

pub assume_specification[ std::string::String::push ](s: &mut String, ch: char)
    ensures
        final(s)@ == old(s)@.push(ch),
;

// ---------------------------------------------------------------------------
// Character classes
// ---------------------------------------------------------------------------

/// The Unicode `White_Space` property, which `char::is_whitespace` tests.
pub open spec fn is_ws(c: char) -> bool {
    let u = c as u32;
    ||| 0x09 <= u <= 0x0D
    ||| u == 0x20
    ||| u == 0x85
    ||| u == 0xA0
    ||| u == 0x1680
    ||| 0x2000 <= u <= 0x200A
    ||| u == 0x2028
    ||| u == 0x2029
    ||| u == 0x202F
    ||| u == 0x205F
    ||| u == 0x3000
}

pub fn is_whitespace(c: char) -> (r: bool)
    ensures
        r == is_ws(c),
{
    let u = c as u32;
    (0x09 <= u && u <= 0x0D) || u == 0x20 || u == 0x85 || u == 0xA0 || u == 0x1680 || (0x2000
        <= u && u <= 0x200A) || u == 0x2028 || u == 0x2029 || u == 0x202F || u == 0x205F || u
        == 0x3000
}

pub open spec fn is_digit(c: char) -> bool {
    0x30 <= (c as u32) <= 0x39
}

pub open spec fn is_ascii_upper(c: char) -> bool {
    0x41 <= (c as u32) <= 0x5A
}

pub open spec fn is_ascii_lower(c: char) -> bool {
    0x61 <= (c as u32) <= 0x7A
}

pub open spec fn is_ascii_alnum(c: char) -> bool {
    is_digit(c) || is_ascii_upper(c) || is_ascii_lower(c)
}

pub fn is_ascii_alphanumeric(c: char) -> (r: bool)
    ensures
        r == is_ascii_alnum(c),
{
    let u = c as u32;
    (0x30 <= u && u <= 0x39) || (0x41 <= u && u <= 0x5A) || (0x61 <= u && u <= 0x7A)
}

/// The ASCII lower-case form of a character (`char::to_ascii_lowercase`).
pub open spec fn ascii_lower(c: char) -> char {
    if is_ascii_upper(c) {
        ((c as u32) + 32) as char
    } else {
        c
    }
}

pub fn to_ascii_lower(c: char) -> (r: char)
    ensures
        r == ascii_lower(c),
{
    if 'A' <= c && c <= 'Z' {
        let b: u8 = ((c as u32) + 32) as u8;
        b as char
    } else {
        c
    }
}

pub open spec fn lower_seq(s: Seq<char>) -> Seq<char> {
    s.map_values(|c: char| ascii_lower(c))
}

/// The lower-case form of `s` as `str::to_lowercase` gives it.
pub uninterp spec fn unicode_lower(s: Seq<char>) -> Seq<char>;

/// Calls `str::to_lowercase`. Its result is a function of `s`, named
/// `unicode_lower`; on ASCII text it maps `A`-`Z` to `a`-`z` and keeps every
/// other character. The Unicode case mapping beyond ASCII is not restated
/// here.
#[verifier::external_body]
pub(crate) fn to_lowercase(s: &str) -> (r: String)
    ensures
        r@ == unicode_lower(s@),
        vstd::utf8::is_ascii_chars(s@) ==> r@ == lower_seq(s@),
{
    s.to_lowercase()
}

// ---------------------------------------------------------------------------
// Conversions between `str`, `String` and `Vec<char>`
// ---------------------------------------------------------------------------

/// The characters of `s`, in order.
pub fn chars_of(s: &str) -> (r: Vec<char>)
    ensures
        r@ == s@,
{
    let mut r: Vec<char> = Vec::new();
    for c in it: s.chars()
        invariant
            r@ == it.seq().take(it.index() as int),
            it.seq() == s@,
    {
        r.push(c);
    }
    r
}

/// Builds a `String` from a slice of characters.
pub fn string_of(cs: &[char]) -> (r: String)
    ensures
        r@ == cs@,
{
    let mut r = String::new();
    let mut i: usize = 0;
    while i < cs.len()
        invariant
            i <= cs.len(),
            r@ == cs@.take(i as int),
        decreases cs.len() - i,
    {
        r.push(cs[i]);
        i = i + 1;
        assert(r@ == cs@.take(i as int));
    }
    assert(cs@.take(cs.len() as int) == cs@);
    r
}

/// Builds a `String` from `cs[lo..hi]`.
pub fn string_of_range(cs: &[char], lo: usize, hi: usize) -> (r: String)
    requires
        lo <= hi <= cs.len(),
    ensures
        r@ == cs@.subrange(lo as int, hi as int),
{
    let mut r = String::new();
    let mut i: usize = lo;
    while i < hi
        invariant
            lo <= i <= hi <= cs.len(),
            r@ == cs@.subrange(lo as int, i as int),
        decreases hi - i,
    {
        r.push(cs[i]);
        i = i + 1;
        assert(r@ == cs@.subrange(lo as int, i as int));
    }
    r
}

pub fn str_to_string(s: &str) -> (r: String)
    ensures
        r@ == s@,
{
    let cs = chars_of(s);
    string_of(cs.as_slice())
}

/// Appends `t` to `s`.
pub fn push_str(s: &mut String, t: &str)
    ensures
        final(s)@ == old(s)@ + t@,
{
    s.append(t);
}

/// `a@ == b@`, decided character by character.
pub fn str_equal(a: &str, b: &str) -> (r: bool)
    ensures
        r == (a@ == b@),
{
    let x = chars_of(a);
    let y = chars_of(b);
    slice_equal(x.as_slice(), y.as_slice())
}

pub fn slice_equal(x: &[char], y: &[char]) -> (r: bool)
    ensures
        r == (x@ == y@),
{
    if x.len() != y.len() {
        return false;
    }
    let mut i: usize = 0;
    while i < x.len()
        invariant
            x.len() == y.len(),
            i <= x.len(),
            forall|j: int| 0 <= j < i ==> x@[j] == y@[j],
        decreases x.len() - i,
    {
        if x[i] != y[i] {
            return false;
        }
        i = i + 1;
    }
    assert(x@ =~= y@);
    true
}

/// Whether `x[lo..hi]` equals `lit`.
pub fn range_equals(x: &[char], lo: usize, hi: usize, lit: &str) -> (r: bool)
    requires
        lo <= hi <= x.len(),
    ensures
        r == (x@.subrange(lo as int, hi as int) == lit@),
{
    let y = chars_of(lit);
    if hi - lo != y.len() {
        return false;
    }
    let mut i: usize = 0;
    while i < y.len()
        invariant
            hi - lo == y.len(),
            lo <= hi <= x.len(),
            i <= y.len(),
            y@ == lit@,
            forall|j: int| 0 <= j < i ==> x@[lo + j] == y@[j],
        decreases y.len() - i,
    {
        if x[lo + i] != y[i] {
            return false;
        }
        i = i + 1;
    }
    assert(x@.subrange(lo as int, hi as int) =~= y@);
    true
}

// ---------------------------------------------------------------------------
// Trimming
// ---------------------------------------------------------------------------

/// `str::trim_start`: drops leading white space.
pub open spec fn trim_start_seq(s: Seq<char>) -> Seq<char>
    decreases s.len(),
{
    if s.len() > 0 && is_ws(s[0]) {
        trim_start_seq(s.drop_first())
    } else {
        s
    }
}

/// `str::trim_end`: drops trailing white space.
pub open spec fn trim_end_seq(s: Seq<char>) -> Seq<char>
    decreases s.len(),
{
    if s.len() > 0 && is_ws(s.last()) {
        trim_end_seq(s.drop_last())
    } else {
        s
    }
}

/// `str::trim`: drops leading and trailing white space.
pub open spec fn trim_seq(s: Seq<char>) -> Seq<char> {
    trim_end_seq(trim_start_seq(s))
}

/// `trim_start_seq(s)` drops the white space before position `a`, where
/// `s[a]`, if any, is not white space.
pub proof fn lemma_trim_start(s: Seq<char>) -> (a: int)
    ensures
        0 <= a <= s.len(),
        trim_start_seq(s) == s.skip(a),
        forall|j: int| 0 <= j < a ==> is_ws(#[trigger] s[j]),
        a < s.len() ==> !is_ws(s[a]),
    decreases s.len(),
{
    if s.len() > 0 && is_ws(s[0]) {
        let b = lemma_trim_start(s.drop_first());
        assert(s.drop_first().skip(b) =~= s.skip(b + 1));
        assert forall|j: int| 0 <= j < b + 1 implies is_ws(#[trigger] s[j]) by {
            if j > 0 {
                assert(s[j] == s.drop_first()[j - 1]);
            }
        }
        b + 1
    } else {
        assert(s.skip(0) =~= s);
        0
    }
}

/// `trim_end_seq(s)` keeps the first `b` characters: all after them are
/// white space, and `s[b - 1]`, if any, is not.
pub proof fn lemma_trim_end(s: Seq<char>) -> (b: int)
    ensures
        0 <= b <= s.len(),
        trim_end_seq(s) == s.take(b),
        forall|j: int| b <= j < s.len() ==> is_ws(#[trigger] s[j]),
        b > 0 ==> !is_ws(s[b - 1]),
    decreases s.len(),
{
    if s.len() > 0 && is_ws(s.last()) {
        let b = lemma_trim_end(s.drop_last());
        assert(s.drop_last().take(b) =~= s.take(b));
        assert forall|j: int| b <= j < s.len() implies is_ws(#[trigger] s[j]) by {
            if j < s.len() - 1 {
                assert(s[j] == s.drop_last()[j]);
            }
        }
        b
    } else {
        assert(s.take(s.len() as int) =~= s);
        s.len() as int
    }
}

/// `x` is `p` with its leading and trailing white space removed: a stretch
/// of `p` with only white space before and after it, that neither begins
/// nor ends with white space.
pub open spec fn is_trimmed_from(x: Seq<char>, p: Seq<char>) -> bool {
    &&& (x.len() > 0 ==> !is_ws(x[0]) && !is_ws(x.last()))
    &&& exists|a: int, b: int|
        0 <= a <= b <= p.len() && x == #[trigger] p.subrange(a, b) && (forall|j: int|
            0 <= j < a ==> is_ws(#[trigger] p[j])) && (forall|j: int|
            b <= j < p.len() ==> is_ws(#[trigger] p[j]))
}

/// `trim_seq` removes exactly the white space at both ends.
pub proof fn lemma_trim_seq(p: Seq<char>)
    ensures
        is_trimmed_from(trim_seq(p), p),
{
    let a = lemma_trim_start(p);
    let rest = p.skip(a);
    let b = lemma_trim_end(rest);
    let x = trim_seq(p);
    assert(x == rest.take(b));
    assert(rest.take(b) =~= p.subrange(a, a + b));
    assert forall|j: int| a + b <= j < p.len() implies is_ws(#[trigger] p[j]) by {
        assert(p[j] == rest[j - a]);
    }
    if x.len() > 0 {
        assert(x[0] == rest[0]);
        assert(rest[0] == p[a]);
        assert(x.last() == rest[b - 1]);
    }
    assert(0 <= a <= a + b <= p.len() && x == p.subrange(a, a + b));
}

/// Index of the first non-white-space character of `x[lo..hi]` (or `hi`).
pub fn skip_ws_forward(x: &[char], lo: usize, hi: usize) -> (a: usize)
    requires
        lo <= hi <= x.len(),
    ensures
        lo <= a <= hi,
        trim_start_seq(x@.subrange(lo as int, hi as int)) == x@.subrange(a as int, hi as int),
{
    let mut a = lo;
    while a < hi && is_whitespace(x[a])
        invariant
            lo <= a <= hi <= x.len(),
            trim_start_seq(x@.subrange(lo as int, hi as int)) == trim_start_seq(
                x@.subrange(a as int, hi as int),
            ),
        decreases hi - a,
    {
        assert(x@.subrange(a as int, hi as int).drop_first() =~= x@.subrange(
            a + 1,
            hi as int,
        ));
        a = a + 1;
    }
    a
}

/// One past the last non-white-space character of `x[lo..hi]` (or `lo`).
pub fn skip_ws_backward(x: &[char], lo: usize, hi: usize) -> (b: usize)
    requires
        lo <= hi <= x.len(),
    ensures
        lo <= b <= hi,
        trim_end_seq(x@.subrange(lo as int, hi as int)) == x@.subrange(lo as int, b as int),
{
    let mut b = hi;
    while b > lo && is_whitespace(x[b - 1])
        invariant
            lo <= b <= hi <= x.len(),
            trim_end_seq(x@.subrange(lo as int, hi as int)) == trim_end_seq(
                x@.subrange(lo as int, b as int),
            ),
        decreases b - lo,
    {
        assert(x@.subrange(lo as int, b as int).drop_last() =~= x@.subrange(
            lo as int,
            b - 1,
        ));
        b = b - 1;
    }
    b
}

/// The bounds of `trim(x[lo..hi])` inside `x`.
pub fn trim_bounds(x: &[char], lo: usize, hi: usize) -> (r: (usize, usize))
    requires
        lo <= hi <= x.len(),
    ensures
        lo <= r.0 <= r.1 <= hi,
        trim_seq(x@.subrange(lo as int, hi as int)) == x@.subrange(r.0 as int, r.1 as int),
{
    let a = skip_ws_forward(x, lo, hi);
    let b = skip_ws_backward(x, a, hi);
    (a, b)
}

/// `s.trim().to_string()`.
pub fn trim_str(s: &str) -> (r: String)
    ensures
        r@ == trim_seq(s@),
{
    let x = chars_of(s);
    let (a, b) = trim_bounds(x.as_slice(), 0, x.len());
    assert(x@.subrange(0, x@.len() as int) == x@);
    string_of_range(x.as_slice(), a, b)
}

/// Whether `s.trim()` is empty.
pub fn is_blank(s: &str) -> (r: bool)
    ensures
        r == (trim_seq(s@).len() == 0),
{
    let t = trim_str(s);
    t.as_str().unicode_len() == 0
}

// ---------------------------------------------------------------------------
// Searching
// ---------------------------------------------------------------------------

/// Index of the first occurrence of `c` in `s`, if any.
pub open spec fn find_char(s: Seq<char>, c: char) -> Option<int>
    decreases s.len(),
{
    if s.len() == 0 {
        None
    } else if s[0] == c {
        Some(0)
    } else {
        match find_char(s.drop_first(), c) {
            Some(i) => Some(i + 1),
            None => None,
        }
    }
}

pub proof fn lemma_find_char(s: Seq<char>, c: char)
    ensures
        match find_char(s, c) {
            Some(i) => 0 <= i < s.len() && s[i] == c && forall|j: int| 0 <= j < i ==> s[j] != c,
            None => forall|j: int| 0 <= j < s.len() ==> s[j] != c,
        },
    decreases s.len(),
{
    if s.len() > 0 {
        lemma_find_char(s.drop_first(), c);
        if s[0] != c {
            match find_char(s.drop_first(), c) {
                Some(i) => {
                    assert forall|j: int| 0 <= j < i + 1 implies s[j] != c by {
                        if j > 0 {
                            assert(s[j] == s.drop_first()[j - 1]);
                        }
                    }
                },
                None => {
                    assert forall|j: int| 0 <= j < s.len() implies s[j] != c by {
                        if j > 0 {
                            assert(s[j] == s.drop_first()[j - 1]);
                        }
                    }
                },
            }
        }
    }
}

/// A position is the first occurrence of `c` exactly when `find_char` says so.
pub proof fn lemma_find_char_unique(s: Seq<char>, c: char, k: int)
    requires
        0 <= k <= s.len(),
        forall|j: int| 0 <= j < k ==> s[j] != c,
        k < s.len() ==> s[k] == c,
    ensures
        find_char(s, c) == (if k < s.len() {
            Some(k)
        } else {
            None::<int>
        }),
{
    lemma_find_char(s, c);
}

/// The index of the first `c` in `x[lo..hi]`, counted from `lo`.
pub fn find_in_range(x: &[char], lo: usize, hi: usize, c: char) -> (r: Option<usize>)
    requires
        lo <= hi <= x.len(),
    ensures
        match r {
            Some(k) => lo <= k < hi && find_char(x@.subrange(lo as int, hi as int), c) == Some(
                k - lo,
            ),
            None => find_char(x@.subrange(lo as int, hi as int), c) == None::<int>,
        },
{
    let mut k = lo;
    while k < hi
        invariant
            lo <= k <= hi <= x.len(),
            forall|j: int| lo <= j < k ==> x@[j] != c,
        decreases hi - k,
    {
        if x[k] == c {
            proof {
                lemma_find_char_unique(x@.subrange(lo as int, hi as int), c, k - lo);
            }
            return Some(k);
        }
        k = k + 1;
    }
    proof {
        lemma_find_char_unique(x@.subrange(lo as int, hi as int), c, hi - lo);
    }
    None
}

/// `str::split_once(c)`: the parts before and after the first `c`.
pub open spec fn split_once_seq(s: Seq<char>, c: char) -> Option<(Seq<char>, Seq<char>)> {
    match find_char(s, c) {
        Some(i) => Some((s.take(i), s.skip(i + 1))),
        None => None,
    }
}

pub open spec fn starts_with_seq(s: Seq<char>, p: Seq<char>) -> bool {
    s.len() >= p.len() && s.take(p.len() as int) == p
}

pub open spec fn ends_with_seq(s: Seq<char>, p: Seq<char>) -> bool {
    s.len() >= p.len() && s.skip(s.len() - p.len()) == p
}

pub fn starts_with(s: &str, p: &str) -> (r: bool)
    ensures
        r == starts_with_seq(s@, p@),
{
    let x = chars_of(s);
    let y = chars_of(p);
    if x.len() < y.len() {
        return false;
    }
    let r = range_equals(x.as_slice(), 0, y.len(), p);
    assert(x@.subrange(0, y@.len() as int) == x@.take(y@.len() as int));
    r
}

// ---------------------------------------------------------------------------
// Lines
// ---------------------------------------------------------------------------

/// A line with its line ending removed: the `'\n'` is already cut off, and a
/// `'\r'` right before it is dropped as well.
pub open spec fn strip_cr(line: Seq<char>) -> Seq<char> {
    if line.len() > 0 && line.last() == '\r' {
        line.drop_last()
    } else {
        line
    }
}

/// `str::lines`: lines end at `"\n"` or `"\r\n"`; the last line needs no
/// ending, and no empty line follows a final ending.
pub open spec fn lines_seq(s: Seq<char>) -> Seq<Seq<char>>
    decreases s.len(),
{
    if s.len() == 0 {
        Seq::empty()
    } else {
        match find_char(s, '\n') {
            Some(i) => {
                proof {
                    lemma_find_char(s, '\n');
                }
                seq![strip_cr(s.take(i))] + lines_seq(s.skip(i + 1))
            },
            None => seq![s],
        }
    }
}

/// `s.lines()`, each line as a `String`.
pub fn lines(s: &str) -> (r: Vec<String>)
    ensures
        r.deep_view() == lines_seq(s@),
{
    let x = chars_of(s);
    let n = x.len();
    let mut r: Vec<String> = Vec::new();
    let mut start: usize = 0;
    assert(x@.skip(0) =~= x@);
    assert(r.deep_view() =~= Seq::<Seq<char>>::empty());
    assert(Seq::<Seq<char>>::empty() + lines_seq(s@) =~= lines_seq(s@));
    while start < n
        invariant
            n == x@.len(),
            x@ == s@,
            start <= n,
            r.deep_view() + lines_seq(x@.skip(start as int)) == lines_seq(s@),
        decreases n - start,
    {
        let ghost rest = x@.skip(start as int);
        assert(x@.subrange(start as int, n as int) == rest);
        match find_in_range(x.as_slice(), start, n, '\n') {
            Some(k) => {
                let end = if k > start && x[k - 1] == '\r' {
                    k - 1
                } else {
                    k
                };
                let line = string_of_range(x.as_slice(), start, end);
                proof {
                    assert(rest.take(k - start) =~= x@.subrange(start as int, k as int));
                    assert(strip_cr(rest.take(k - start)) =~= line@);
                    assert(rest.skip(k - start + 1) =~= x@.skip(k + 1));
                    assert(lines_seq(rest) == seq![line@] + lines_seq(x@.skip(k + 1)));
                }
                let ghost old_r = r.deep_view();
                r.push(line);
                assert(r.deep_view() =~= old_r.push(line@));
                assert(old_r.push(line@) + lines_seq(x@.skip(k + 1)) =~= old_r + (seq![line@]
                    + lines_seq(x@.skip(k + 1))));
                start = k + 1;
            },
            None => {
                let line = string_of_range(x.as_slice(), start, n);
                let ghost old_r = r.deep_view();
                r.push(line);
                assert(r.deep_view() =~= old_r.push(line@));
                assert(lines_seq(rest) == seq![rest]);
                assert(x@.skip(n as int) =~= Seq::<char>::empty());
                assert(lines_seq(x@.skip(n as int)) =~= Seq::<Seq<char>>::empty());
                assert(old_r + seq![rest] =~= old_r.push(line@) + Seq::<Seq<char>>::empty());
                start = n;
            },
        }
    }
    assert(x@.skip(n as int) =~= Seq::<char>::empty());
    assert(r.deep_view() + Seq::<Seq<char>>::empty() =~= r.deep_view());
    r
}

// ---------------------------------------------------------------------------
// Integers (`u8::from_str`, `i64::from_str`)
// ---------------------------------------------------------------------------

pub open spec fn digit_value(c: char) -> int {
    (c as u32) - 0x30
}

pub open spec fn all_digits(s: Seq<char>) -> bool {
    forall|i: int| 0 <= i < s.len() ==> is_digit(#[trigger] s[i])
}

/// The value of a string of decimal digits.
pub open spec fn digits_value(s: Seq<char>) -> nat
    decreases s.len(),
{
    if s.len() == 0 {
        0
    } else {
        (digits_value(s.drop_last()) * 10 + digit_value(s.last())) as nat
    }
}

/// The magnitude written by `s`: one or more decimal digits.
pub open spec fn magnitude(s: Seq<char>) -> Option<nat> {
    if s.len() > 0 && all_digits(s) {
        Some(digits_value(s))
    } else {
        None
    }
}

/// `u8::from_str`: an optional `+`, then decimal digits, at most 255.
pub open spec fn parse_u8_spec(s: Seq<char>) -> Option<u8> {
    let d = if s.len() > 0 && s[0] == '+' {
        s.drop_first()
    } else {
        s
    };
    match magnitude(d) {
        Some(v) => if v <= 255 {
            Some(v as u8)
        } else {
            None
        },
        None => None,
    }
}

/// `i64::from_str`: an optional sign, then decimal digits, in range.
pub open spec fn parse_i64_spec(s: Seq<char>) -> Option<i64> {
    let neg = s.len() > 0 && s[0] == '-';
    let d = if s.len() > 0 && (s[0] == '+' || s[0] == '-') {
        s.drop_first()
    } else {
        s
    };
    match magnitude(d) {
        Some(v) => {
            let value: int = if neg {
                -(v as int)
            } else {
                v as int
            };
            if i64::MIN <= value <= i64::MAX {
                Some(value as i64)
            } else {
                None
            }
        },
        None => None,
    }
}

/// Reads the digits `x[lo..hi]`; the value saturates at `cap`.
fn digits_saturating(x: &[char], lo: usize, hi: usize, cap: u128) -> (r: Option<u128>)
    requires
        lo <= hi <= x.len(),
        0 < cap < 0x1_0000_0000_0000_0000_0000_0000_0000,
    ensures
        match r {
            Some(v) => all_digits(x@.subrange(lo as int, hi as int)) && v == (if digits_value(
                x@.subrange(lo as int, hi as int),
            ) < cap {
                digits_value(x@.subrange(lo as int, hi as int))
            } else {
                cap as nat
            }),
            None => !all_digits(x@.subrange(lo as int, hi as int)),
        },
{
    let mut acc: u128 = 0;
    let mut i = lo;
    while i < hi
        invariant
            lo <= i <= hi <= x.len(),
            0 < cap < 0x1_0000_0000_0000_0000_0000_0000_0000,
            all_digits(x@.subrange(lo as int, i as int)),
            acc == (if digits_value(x@.subrange(lo as int, i as int)) < cap {
                digits_value(x@.subrange(lo as int, i as int))
            } else {
                cap as nat
            }),
        decreases hi - i,
    {
        let c = x[i];
        let u = c as u32;
        if u < 0x30 || u > 0x39 {
            assert(x@.subrange(lo as int, hi as int)[i - lo] == c);
            return None;
        }
        let d = (u - 0x30) as u128;
        let ghost prev = x@.subrange(lo as int, i as int);
        let ghost next = x@.subrange(lo as int, i + 1);
        assert(next.drop_last() =~= prev);
        assert(next.last() == c);
        assert(digits_value(next) == digits_value(prev) * 10 + d);
        if acc >= cap {
            acc = cap;
        } else {
            let v = acc * 10 + d;
            acc = if v < cap {
                v
            } else {
                cap
            };
        }
        i = i + 1;
        assert(all_digits(next)) by {
            assert forall|j: int| 0 <= j < next.len() implies is_digit(#[trigger] next[j]) by {
                if j < prev.len() {
                    assert(next[j] == prev[j]);
                }
            }
        }
    }
    Some(acc)
}

/// `s.parse::<u8>().ok()`.
pub fn parse_u8_range(x: &[char], lo: usize, hi: usize) -> (r: Option<u8>)
    requires
        lo <= hi <= x.len(),
    ensures
        r == parse_u8_spec(x@.subrange(lo as int, hi as int)),
{
    let ghost s = x@.subrange(lo as int, hi as int);
    let start = if lo < hi && x[lo] == '+' {
        lo + 1
    } else {
        lo
    };
    assert(start > lo ==> s.drop_first() =~= x@.subrange(start as int, hi as int));
    assert(start == lo ==> s =~= x@.subrange(start as int, hi as int));
    if start == hi {
        return None;
    }
    match digits_saturating(x, start, hi, 256) {
        Some(v) => if v <= 255 {
            Some(v as u8)
        } else {
            None
        },
        None => None,
    }
}

pub fn parse_u8(s: &str) -> (r: Option<u8>)
    ensures
        r == parse_u8_spec(s@),
{
    let x = chars_of(s);
    assert(x@.subrange(0, x@.len() as int) == x@);
    parse_u8_range(x.as_slice(), 0, x.len())
}

/// `s.parse::<i64>().ok()`.
pub fn parse_i64(s: &str) -> (r: Option<i64>)
    ensures
        r == parse_i64_spec(s@),
{
    let x = chars_of(s);
    let hi = x.len();
    let neg = hi > 0 && x[0] == '-';
    let start: usize = if hi > 0 && (x[0] == '+' || x[0] == '-') {
        1
    } else {
        0
    };
    assert(start == 1 ==> x@.drop_first() =~= x@.subrange(1, hi as int));
    assert(start == 0 ==> x@ =~= x@.subrange(0, hi as int));
    if start == hi {
        return None;
    }
    match digits_saturating(x.as_slice(), start, hi, 0x1_0000_0000_0000_0000) {
        Some(v) => {
            if neg {
                if v <= 0x8000_0000_0000_0000 {
                    if v == 0x8000_0000_0000_0000 {
                        Some(i64::MIN)
                    } else {
                        Some(-(v as i64))
                    }
                } else {
                    None
                }
            } else {
                if v <= 0x7FFF_FFFF_FFFF_FFFF {
                    Some(v as i64)
                } else {
                    None
                }
            }
        },
        None => None,
    }
}


/// The words joined with `sep` between each two of them.
pub open spec fn join_seq(ws: Seq<Seq<char>>, sep: Seq<char>) -> Seq<char>
    decreases ws.len(),
{
    if ws.len() == 0 {
        Seq::empty()
    } else if ws.len() == 1 {
        ws[0]
    } else {
        join_seq(ws.drop_last(), sep) + sep + ws.last()
    }
}

/// `ws.join(sep)`.
pub fn join(ws: &[String], sep: &str) -> (r: String)
    ensures
        r@ == join_seq(ws@.map_values(|w: String| w@), sep@),
{
    let ghost vs = ws@.map_values(|w: String| w@);
    let mut r = String::new();
    let mut i: usize = 0;
    while i < ws.len()
        invariant
            i <= ws@.len(),
            vs == ws@.map_values(|w: String| w@),
            r@ == join_seq(vs.take(i as int), sep@),
        decreases ws@.len() - i,
    {
        assert(vs.take(i + 1).drop_last() =~= vs.take(i as int));
        assert(vs.take(i + 1).last() == ws@[i as int]@);
        if i > 0 {
            push_str(&mut r, sep);
        } else {
            assert(vs.take(i + 1) =~= seq![ws@[i as int]@]);
        }
        push_str(&mut r, ws[i].as_str());
        i = i + 1;
    }
    assert(vs.take(ws@.len() as int) =~= vs);
    r
}

/// The number of bytes UTF-8 takes for `c`.
pub open spec fn char_utf8_len(c: char) -> nat {
    if (c as u32) < 0x80 {
        1
    } else if (c as u32) < 0x800 {
        2
    } else if (c as u32) < 0x10000 {
        3
    } else {
        4
    }
}

/// The number of bytes of the UTF-8 encoding of `s`, which `str::len`
/// gives.
pub open spec fn utf8_len(s: Seq<char>) -> nat
    decreases s.len(),
{
    if s.len() == 0 {
        0
    } else {
        utf8_len(s.drop_last()) + char_utf8_len(s.last())
    }
}

/// The byte length of `s`, counted in a `u128` so that no sum overflows.
pub fn utf8_byte_len(s: &str) -> (r: u128)
    ensures
        r == utf8_len(s@),
        r <= 4 * s@.len(),
        s@.len() <= usize::MAX,
{
    let x = chars_of(s);
    let mut r: u128 = 0;
    let mut i: usize = 0;
    while i < x.len()
        invariant
            i <= x@.len(),
            r == utf8_len(x@.take(i as int)),
            r <= 4 * i,
        decreases x@.len() - i,
    {
        let c = x[i];
        assert(x@.take(i + 1).drop_last() =~= x@.take(i as int));
        let w: u128 = if (c as u32) < 0x80 {
            1
        } else if (c as u32) < 0x800 {
            2
        } else if (c as u32) < 0x10000 {
            3
        } else {
            4
        };
        r = r + w;
        i = i + 1;
    }
    assert(x@.take(x@.len() as int) =~= x@);
    r
}

/// `p` occurs in `s` at some position.
pub open spec fn contains_seq(s: Seq<char>, p: Seq<char>) -> bool {
    exists|i: int| 0 <= i <= s.len() - p.len() && #[trigger] s.subrange(i, i + p.len()) == p
}

/// `s.contains(p)`.
pub fn contains_str(s: &str, p: &str) -> (r: bool)
    ensures
        r == contains_seq(s@, p@),
{
    let x = chars_of(s);
    let y = chars_of(p);
    if y.len() > x.len() {
        return false;
    }
    if y.len() == 0 {
        assert(s@.subrange(0, 0int + p@.len()) =~= p@);
        return true;
    }
    let last = x.len() - y.len();
    let mut i: usize = 0;
    while i <= last
        invariant
            x@ == s@,
            y@ == p@,
            y@.len() > 0,
            x@.len() <= usize::MAX,
            last == x@.len() - y@.len(),
            last < x@.len(),
            i <= last + 1,
            forall|j: int| 0 <= j < i ==> #[trigger] x@.subrange(j, j + y@.len()) != y@,
        decreases last + 1 - i,
    {
        if range_equals(x.as_slice(), i, i + y.len(), p) {
            return true;
        }
        i = i + 1;
    }
    false
}

/// The decimal digits of `n`, most significant first, without leading
/// zeros (`0` for zero).
pub open spec fn decimal_spec(n: nat) -> Seq<char>
    decreases n,
{
    if n < 10 {
        seq![((n + 0x30) as u8) as char]
    } else {
        decimal_spec(n / 10) + seq![(((n % 10) + 0x30) as u8) as char]
    }
}

/// How `i32`'s `Display` writes `n`: a minus sign for a negative number,
/// then the digits of its magnitude.
pub open spec fn i32_text_spec(n: i32) -> Seq<char> {
    if n < 0 {
        seq!['-'] + decimal_spec((-n) as nat)
    } else {
        decimal_spec(n as nat)
    }
}

fn digit_char(d: u64) -> (r: char)
    requires
        d < 10,
    ensures
        r == ((d + 0x30) as u8) as char,
{
    let b: u8 = (d as u8) + 0x30;
    b as char
}

/// The decimal digits of `n`.
pub fn decimal(n: u64) -> (r: String)
    ensures
        r@ == decimal_spec(n as nat),
    decreases n,
{
    if n < 10 {
        let mut r = String::new();
        r.push(digit_char(n));
        assert(r@ =~= decimal_spec(n as nat));
        r
    } else {
        let mut r = decimal(n / 10);
        r.push(digit_char(n % 10));
        assert(r@ =~= decimal_spec(n as nat));
        r
    }
}

/// `n.to_string()`.
pub fn i32_text(n: i32) -> (r: String)
    ensures
        r@ == i32_text_spec(n),
{
    if n < 0 {
        let m: u64 = (0i64 - n as i64) as u64;
        let mut r = String::new();
        r.push('-');
        let d = decimal(m);
        push_str(&mut r, d.as_str());
        assert(r@ =~= i32_text_spec(n));
        r
    } else {
        decimal(n as u64)
    }
}

} // verus!
