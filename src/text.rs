//! Character-level primitives shared by the snapshot parsers.

use vstd::prelude::*;
use vstd::std_specs::iter::IteratorSpec;

verus! {

/// Unicode `White_Space`, as `char::is_whitespace` documents it.
pub open spec fn is_ws(c: char) -> bool {
    c == '\t' || c == '\n' || c == '\u{0B}' || c == '\u{0C}' || c == '\r' || c == ' '
        || c == '\u{85}' || c == '\u{A0}' || c == '\u{1680}' || ('\u{2000}' <= c
        && c <= '\u{200A}') || c == '\u{2028}' || c == '\u{2029}' || c == '\u{202F}'
        || c == '\u{205F}' || c == '\u{3000}'
}

pub fn is_ws_char(c: char) -> (r: bool)
    ensures
        r == is_ws(c),
{
    c == '\t' || c == '\n' || c == '\u{0B}' || c == '\u{0C}' || c == '\r' || c == ' '
        || c == '\u{85}' || c == '\u{A0}' || c == '\u{1680}' || ('\u{2000}' <= c
        && c <= '\u{200A}') || c == '\u{2028}' || c == '\u{2029}' || c == '\u{202F}'
        || c == '\u{205F}' || c == '\u{3000}'
}

/// First index in `[i, hi)` holding `c`, or `hi`.
pub open spec fn find_in(s: Seq<char>, c: char, i: int, hi: int) -> int
    decreases hi - i,
{
    if i >= hi {
        hi
    } else if s[i] == c {
        i
    } else {
        find_in(s, c, i + 1, hi)
    }
}

/// First index in `[i, hi)` that is not whitespace, or `hi`.
pub open spec fn skip_ws(s: Seq<char>, i: int, hi: int) -> int
    decreases hi - i,
{
    if i >= hi {
        hi
    } else if !is_ws(s[i]) {
        i
    } else {
        skip_ws(s, i + 1, hi)
    }
}

/// First index in `[i, hi)` that is whitespace, or `hi`.
pub open spec fn skip_token(s: Seq<char>, i: int, hi: int) -> int
    decreases hi - i,
{
    if i >= hi {
        hi
    } else if is_ws(s[i]) {
        i
    } else {
        skip_token(s, i + 1, hi)
    }
}

/// The end of `s[lo..hi]` once trailing whitespace is removed.
pub open spec fn trim_back(s: Seq<char>, lo: int, hi: int) -> int
    decreases hi - lo,
{
    if hi <= lo {
        lo
    } else if !is_ws(s[hi - 1]) {
        hi
    } else {
        trim_back(s, lo, hi - 1)
    }
}

/// `s[lo..hi]` without leading and trailing whitespace.
pub open spec fn trim_range(s: Seq<char>, lo: int, hi: int) -> Seq<char> {
    let a = skip_ws(s, lo, hi);
    s.subrange(a, trim_back(s, a, hi))
}

pub open spec fn trim(s: Seq<char>) -> Seq<char> {
    trim_range(s, 0, s.len() as int)
}

pub open spec fn starts_with(s: Seq<char>, p: Seq<char>) -> bool {
    p.len() <= s.len() && s.subrange(0, p.len() as int) == p
}

pub proof fn lemma_find_in_bounds(s: Seq<char>, c: char, i: int, hi: int)
    requires
        i <= hi,
    ensures
        i <= find_in(s, c, i, hi) <= hi,
        find_in(s, c, i, hi) < hi ==> s[find_in(s, c, i, hi)] == c,
        forall|k: int| i <= k < find_in(s, c, i, hi) ==> s[k] != c,
    decreases hi - i,
{
    if i < hi && s[i] != c {
        lemma_find_in_bounds(s, c, i + 1, hi);
    }
}

pub fn find_char(s: &[char], c: char, i: usize, hi: usize) -> (r: usize)
    requires
        i <= hi <= s@.len(),
    ensures
        r == find_in(s@, c, i as int, hi as int),
        i <= r <= hi,
{
    let mut k = i;
    while k < hi
        invariant
            i <= k <= hi <= s@.len(),
            find_in(s@, c, i as int, hi as int) == find_in(s@, c, k as int, hi as int),
        decreases hi - k,
    {
        if s[k] == c {
            return k;
        }
        k = k + 1;
    }
    k
}

pub fn skip_ws_from(s: &[char], i: usize, hi: usize) -> (r: usize)
    requires
        i <= hi <= s@.len(),
    ensures
        r == skip_ws(s@, i as int, hi as int),
        i <= r <= hi,
{
    let mut k = i;
    while k < hi
        invariant
            i <= k <= hi <= s@.len(),
            skip_ws(s@, i as int, hi as int) == skip_ws(s@, k as int, hi as int),
        decreases hi - k,
    {
        if !is_ws_char(s[k]) {
            return k;
        }
        k = k + 1;
    }
    k
}

pub fn skip_token_from(s: &[char], i: usize, hi: usize) -> (r: usize)
    requires
        i <= hi <= s@.len(),
    ensures
        r == skip_token(s@, i as int, hi as int),
        i <= r <= hi,
{
    let mut k = i;
    while k < hi
        invariant
            i <= k <= hi <= s@.len(),
            skip_token(s@, i as int, hi as int) == skip_token(s@, k as int, hi as int),
        decreases hi - k,
    {
        if is_ws_char(s[k]) {
            return k;
        }
        k = k + 1;
    }
    k
}

pub fn trim_back_from(s: &[char], lo: usize, hi: usize) -> (r: usize)
    requires
        lo <= hi <= s@.len(),
    ensures
        r == trim_back(s@, lo as int, hi as int),
        lo <= r <= hi,
{
    let mut k = hi;
    while k > lo
        invariant
            lo <= k <= hi <= s@.len(),
            trim_back(s@, lo as int, hi as int) == trim_back(s@, lo as int, k as int),
        decreases k - lo,
    {
        if !is_ws_char(s[k - 1]) {
            return k;
        }
        k = k - 1;
    }
    k
}

/// Value of a run of decimal digits.
pub open spec fn digits_value(s: Seq<char>) -> int
    decreases s.len(),
{
    if s.len() == 0 {
        0
    } else {
        digits_value(s.drop_last()) * 10 + (s.last() as int - '0' as int)
    }
}

pub open spec fn all_digits(s: Seq<char>) -> bool {
    forall|i: int| 0 <= i < s.len() ==> '0' <= #[trigger] s[i] && s[i] <= '9'
}

/// A decimal number of at least one digit, at most `max`.
pub open spec fn decimal(s: Seq<char>, max: int) -> Option<int> {
    if s.len() > 0 && all_digits(s) && digits_value(s) <= max {
        Some(digits_value(s))
    } else {
        None
    }
}

/// An unsigned integer written as `u64::from_str` accepts it: an optional
/// `+`, then decimal digits, with a value at most `max`.
pub open spec fn parse_unsigned(s: Seq<char>, max: int) -> Option<int> {
    if s.len() > 0 && s[0] == '+' {
        decimal(s.drop_first(), max)
    } else {
        decimal(s, max)
    }
}

/// A signed 64-bit integer written as `i64::from_str` accepts it.
pub open spec fn parse_signed(s: Seq<char>) -> Option<int> {
    if s.len() > 0 && s[0] == '-' {
        match decimal(s.drop_first(), 0x8000_0000_0000_0000) {
            Some(m) => Some(-m),
            None => None,
        }
    } else {
        parse_unsigned(s, 0x7fff_ffff_ffff_ffff)
    }
}

proof fn lemma_digits_monotone(s: Seq<char>, i: int)
    requires
        0 <= i <= s.len(),
        all_digits(s),
    ensures
        digits_value(s.subrange(0, i)) <= digits_value(s),
        0 <= digits_value(s.subrange(0, i)),
    decreases s.len() - i,
{
    if i < s.len() {
        lemma_digits_monotone(s, i + 1);
        assert(s.subrange(0, i + 1).drop_last() =~= s.subrange(0, i));
        assert(s.subrange(0, i + 1).last() == s[i]);
    } else {
        assert(s.subrange(0, i) =~= s);
        lemma_digits_nonneg(s);
    }
}

proof fn lemma_digits_nonneg(s: Seq<char>)
    requires
        all_digits(s),
    ensures
        0 <= digits_value(s),
    decreases s.len(),
{
    if s.len() > 0 {
        assert(all_digits(s.drop_last()));
        lemma_digits_nonneg(s.drop_last());
    }
}

/// Reads the decimal number `s[a..b]`, if it is one and at most `max`.
fn read_decimal(s: &[char], a: usize, b: usize, max: u64) -> (r: Option<u64>)
    requires
        a <= b <= s@.len(),
    ensures
        r matches Some(v) ==> decimal(s@.subrange(a as int, b as int), max as int) == Some(v as int),
        r is None ==> decimal(s@.subrange(a as int, b as int), max as int) is None,
{
    let ghost d = s@.subrange(a as int, b as int);
    if a == b {
        return None;
    }
    let mut v: u64 = 0;
    let mut k = a;
    while k < b
        invariant
            a <= k <= b <= s@.len(),
            d == s@.subrange(a as int, b as int),
            all_digits(d.subrange(0, k - a)),
            v as int == digits_value(d.subrange(0, k - a)),
            v <= max,
        decreases b - k,
    {
        let c = s[k];
        if c < '0' || c > '9' {
            assert(!all_digits(d)) by {
                assert(d[k - a] == c);
            }
            return None;
        }
        let ghost pre = d.subrange(0, k - a);
        let ghost next = d.subrange(0, k + 1 - a);
        assert(next.drop_last() =~= pre);
        assert(next.last() == c);
        assert(all_digits(next)) by {
            assert forall|j: int| 0 <= j < next.len() implies '0' <= #[trigger] next[j] && next[j] <= '9' by {
                if j < pre.len() {
                    assert(next[j] == pre[j]);
                }
            }
        }
        let digit: u64 = (c as u32 - '0' as u32) as u64;
        if digit > max || v > (max - digit) / 10 {
            assert(digits_value(next) > max) by (nonlinear_arith)
                requires
                    digits_value(next) == v * 10 + digit,
                    digit > max || v > (max - digit) / 10,
                    digit <= 9,
            {
            }
            proof {
                if all_digits(d) {
                    lemma_digits_monotone(d, k + 1 - a);
                }
            }
            return None;
        }
        assert(v * 10 + digit <= max) by (nonlinear_arith)
            requires
                v <= (max - digit) / 10,
                digit <= max,
        {
        }
        v = v * 10 + digit;
        k = k + 1;
    }
    assert(d.subrange(0, k - a) =~= d);
    Some(v)
}

pub open spec fn parse_u64_spec(s: Seq<char>) -> Option<u64> {
    match parse_unsigned(s, u64::MAX as int) {
        Some(v) => Some(v as u64),
        None => None,
    }
}

pub open spec fn parse_u32_spec(s: Seq<char>) -> Option<u32> {
    match parse_unsigned(s, u32::MAX as int) {
        Some(v) => Some(v as u32),
        None => None,
    }
}

pub open spec fn parse_i64_spec(s: Seq<char>) -> Option<i64> {
    match parse_signed(s) {
        Some(v) => Some(v as i64),
        None => None,
    }
}

fn read_unsigned(s: &[char], a: usize, b: usize, max: u64) -> (r: Option<u64>)
    requires
        a <= b <= s@.len(),
    ensures
        r matches Some(v) ==> parse_unsigned(s@.subrange(a as int, b as int), max as int) == Some(v as int),
        r is None ==> parse_unsigned(s@.subrange(a as int, b as int), max as int) is None,
{
    if a < b && s[a] == '+' {
        assert(s@.subrange(a as int, b as int).drop_first() =~= s@.subrange(a + 1, b as int));
        read_decimal(s, a + 1, b, max)
    } else {
        read_decimal(s, a, b, max)
    }
}

/// The `u64` written in `s[a..b]`.
pub fn parse_u64_at(s: &[char], a: usize, b: usize) -> (r: Option<u64>)
    requires
        a <= b <= s@.len(),
    ensures
        r == parse_u64_spec(s@.subrange(a as int, b as int)),
{
    read_unsigned(s, a, b, u64::MAX)
}

/// The `u32` written in `s[a..b]`.
pub fn parse_u32_at(s: &[char], a: usize, b: usize) -> (r: Option<u32>)
    requires
        a <= b <= s@.len(),
    ensures
        r == parse_u32_spec(s@.subrange(a as int, b as int)),
{
    match read_unsigned(s, a, b, u32::MAX as u64) {
        Some(v) => Some(v as u32),
        None => None,
    }
}

/// The `i64` written in `s[a..b]`.
pub fn parse_i64_at(s: &[char], a: usize, b: usize) -> (r: Option<i64>)
    requires
        a <= b <= s@.len(),
    ensures
        r == parse_i64_spec(s@.subrange(a as int, b as int)),
{
    if a < b && s[a] == '-' {
        assert(s@.subrange(a as int, b as int).drop_first() =~= s@.subrange(a + 1, b as int));
        match read_decimal(s, a + 1, b, 0x8000_0000_0000_0000u64) {
            Some(m) => {
                if m == 0x8000_0000_0000_0000u64 {
                    Some(i64::MIN)
                } else {
                    Some(-(m as i64))
                }
            },
            None => None,
        }
    } else {
        match read_unsigned(s, a, b, i64::MAX as u64) {
            Some(v) => Some(v as i64),
            None => None,
        }
    }
}

/// Where the value of a `key: value` line stands: the line starts with
/// `key`, and the value is the first whitespace-delimited token of what
/// follows the first colon after the key. An empty value counts as absent.
pub open spec fn value_bounds(line: Seq<char>, key: Seq<char>) -> Option<(int, int)> {
    if !starts_with(line, key) {
        None
    } else {
        let n = line.len() as int;
        let c1 = find_in(line, ':', key.len() as int, n);
        if c1 >= n {
            None
        } else {
            let a = skip_ws(line, c1 + 1, n);
            let b = skip_token(line, a, n);
            if a == b {
                None
            } else {
                Some((a, b))
            }
        }
    }
}

/// The value of a `key: value` line, as `value_bounds` places it.
pub open spec fn extract_value_spec(line: Seq<char>, key: Seq<char>) -> Option<Seq<char>> {
    match value_bounds(line, key) {
        Some((a, b)) => Some(line.subrange(a, b)),
        None => None,
    }
}

/// Locates the value of a `key: value` line.
pub fn value_span(line: &[char], key: &str) -> (r: Option<(usize, usize)>)
    ensures
        r matches Some((a, b)) ==> value_bounds(line@, key@) == Some((a as int, b as int))
            && a < b <= line@.len(),
        r is None ==> value_bounds(line@, key@) is None,
{
    if !has_prefix(line, key) {
        return None;
    }
    let n = line.len();
    let kl = key.unicode_len();
    let c1 = find_char(line, ':', kl, n);
    if c1 >= n {
        return None;
    }
    let a = skip_ws_from(line, c1 + 1, n);
    let b = skip_token_from(line, a, n);
    if a == b {
        None
    } else {
        Some((a, b))
    }
}

/// The value of a `key: value` line (see `value_bounds`).
pub fn extract_value(line: &str, key_prefix: &str) -> (r: Option<String>)
    ensures
        r matches Some(v) ==> extract_value_spec(line@, key_prefix@) == Some(v@),
        r is None ==> extract_value_spec(line@, key_prefix@) is None,
{
    let cs = chars_of(line);
    match value_span(cs.as_slice(), key_prefix) {
        Some((a, b)) => {
            let v = copy_range(cs.as_slice(), a, b);
            Some(string_from_chars(v.as_slice()))
        },
        None => None,
    }
}

/// Relies on `String`'s `FromIterator<&char>`: the string holds the
/// characters in order.
#[verifier::external_body]
pub(crate) fn string_from_chars(v: &[char]) -> (r: String)
    ensures
        r@ == v@,
{
    v.iter().collect()
}

/// The lines of `s`: the pieces between newline characters, in order.
pub open spec fn lines(s: Seq<char>) -> Seq<Seq<char>>
    decreases s.len(),
{
    if s.len() == 0 {
        seq![Seq::<char>::empty()]
    } else {
        let prev = lines(s.drop_last());
        if s.last() == '\n' {
            prev.push(Seq::<char>::empty())
        } else {
            prev.update(prev.len() - 1, prev.last().push(s.last()))
        }
    }
}

pub proof fn lemma_lines_nonempty(s: Seq<char>)
    ensures
        lines(s).len() >= 1,
    decreases s.len(),
{
    if s.len() > 0 {
        lemma_lines_nonempty(s.drop_last());
    }
}

/// The lines of `text` (see `lines`).
pub fn split_lines(text: &str) -> (r: Vec<Vec<char>>)
    ensures
        r@.len() == lines(text@).len(),
        forall|i: int| 0 <= i < r@.len() ==> #[trigger] r@[i]@ == lines(text@)[i],
{
    let cs = chars_of(text);
    let mut done: Vec<Vec<char>> = Vec::new();
    let mut cur: Vec<char> = Vec::new();
    let mut k: usize = 0;
    while k < cs.len()
        invariant
            k <= cs@.len(),
            cs@ == text@,
            done@.len() + 1 == lines(cs@.subrange(0, k as int)).len(),
            forall|i: int| 0 <= i < done@.len() ==> #[trigger] done@[i]@ == lines(cs@.subrange(0, k as int))[i],
            cur@ == lines(cs@.subrange(0, k as int)).last(),
        decreases cs@.len() - k,
    {
        let ghost pre = cs@.subrange(0, k as int);
        let ghost next = cs@.subrange(0, k + 1);
        assert(next.drop_last() =~= pre);
        proof { lemma_lines_nonempty(pre); }
        let c = cs[k];
        if c == '\n' {
            let mut finished: Vec<char> = Vec::new();
            std::mem::swap(&mut finished, &mut cur);
            done.push(finished);
        } else {
            cur.push(c);
        }
        k = k + 1;
        assert(lines(next).len() == lines(pre).len() + if c == '\n' { 1int } else { 0int });
    }
    assert(cs@.subrange(0, k as int) =~= text@);
    done.push(cur);
    done
}

/// A value that could not be read, or a line that could not be understood.
#[derive(Debug)]
pub enum ParseError {
    /// The file could not be read: its path and the cause.
    Io(String, String),
    /// A line of a file does not have the expected shape.
    FileFormat { file: String, message: String, line: String },
    /// A value of a line does not parse as the number it should be.
    ValueFormat { file: String, message: String, line: String, value: String },
}

/// Parses `value_str` as a `u64`; on failure the error names the file, the
/// line and the value.
pub fn parse_numeric(value_str: &str, line: &str, file_path: &str) -> (r: Result<u64, ParseError>)
    ensures
        r matches Ok(v) ==> parse_u64_spec(value_str@) == Some(v),
        r is Err ==> parse_u64_spec(value_str@) is None,
        r matches Err(e) ==> (e matches ParseError::ValueFormat { file, line: l, value, .. }
            && file@ == file_path@ && l@ == line@ && value@ == value_str@),
{
    let cs = chars_of(value_str);
    assert(cs@.subrange(0, cs@.len() as int) =~= cs@);
    match parse_u64_at(cs.as_slice(), 0, cs.len()) {
        Some(v) => Ok(v),
        None => Err(
            ParseError::ValueFormat {
                file: file_path.to_owned(),
                message: "Could not parse as u64".to_owned(),
                line: line.to_owned(),
                value: value_str.to_owned(),
            },
        ),
    }
}

/// A copy of `s[a..b]`.
pub fn copy_range(s: &[char], a: usize, b: usize) -> (r: Vec<char>)
    requires
        a <= b <= s@.len(),
    ensures
        r@ == s@.subrange(a as int, b as int),
{
    let mut r: Vec<char> = Vec::new();
    let mut k = a;
    while k < b
        invariant
            a <= k <= b <= s@.len(),
            r@ == s@.subrange(a as int, k as int),
        decreases b - k,
    {
        r.push(s[k]);
        k = k + 1;
        assert(r@ =~= s@.subrange(a as int, k as int));
    }
    r
}

/// `s[lo..hi]` without surrounding whitespace, as a new vector.
pub fn trim_chars(s: &[char], lo: usize, hi: usize) -> (r: Vec<char>)
    requires
        lo <= hi <= s@.len(),
    ensures
        r@ == trim_range(s@, lo as int, hi as int),
{
    let a = skip_ws_from(s, lo, hi);
    let b = trim_back_from(s, a, hi);
    copy_range(s, a, b)
}

pub fn has_prefix(s: &[char], p: &str) -> (r: bool)
    ensures
        r == starts_with(s@, p@),
{
    let n = p.unicode_len();
    if n > s.len() {
        return false;
    }
    let mut k: usize = 0;
    while k < n
        invariant
            n == p@.len(),
            n <= s@.len(),
            k <= n,
            forall|j: int| 0 <= j < k ==> s@[j] == p@[j],
        decreases n - k,
    {
        if s[k] != p.get_char(k) {
            return false;
        }
        k = k + 1;
    }
    assert(s@.subrange(0, n as int) =~= p@);
    true
}

/// The characters of `s`, in order.
pub fn chars_of(s: &str) -> (r: Vec<char>)
    ensures
        r@ == s@,
{
    broadcast use vstd::string::axiom_spec_iter;
    let mut it = s.chars();
    let mut r: Vec<char> = Vec::new();
    loop
        invariant
            r@ + it.remaining() == s@,
            it.obeys_prophetic_iter_laws(),
            it.decrease() is Some,
        decreases it.decrease()->0,
    {
        match it.next() {
            Some(c) => {
                r.push(c);
            },
            None => {
                return r;
            },
        }
    }
}

} // verus!
