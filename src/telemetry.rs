use vstd::prelude::*;
use vstd::string::StringExecFns;

verus! {

/// Rating of a ping round trip of `latency` milliseconds; zero means no answer.
pub open spec fn ping_rating(latency: u64) -> Seq<char> {
    if latency == 0 {
        "offline"@
    } else if latency <= 50 {
        "excellent"@
    } else if latency <= 100 {
        "good"@
    } else if latency <= 200 {
        "average"@
    } else if latency <= 500 {
        "poor"@
    } else {
        "timeout"@
    }
}

pub fn ping_status(latency: u64) -> (r: String)
    ensures
        r@ == ping_rating(latency),
{
    if latency == 0 {
        String::from_str("offline")
    } else if latency <= 50 {
        String::from_str("excellent")
    } else if latency <= 100 {
        String::from_str("good")
    } else if latency <= 200 {
        String::from_str("average")
    } else if latency <= 500 {
        String::from_str("poor")
    } else {
        String::from_str("timeout")
    }
}

} // verus!

verus! {

/// `time=` starts at position `j`.
pub open spec fn marker_at(s: Seq<char>, j: int) -> bool {
    &&& 0 <= j && j + 5 <= s.len()
    &&& s[j] == 't' && s[j + 1] == 'i' && s[j + 2] == 'm' && s[j + 3] == 'e' && s[j + 4] == '='
}

/// First position at or after `j` where `time=` starts, or -1.
pub open spec fn marker_from(s: Seq<char>, j: int) -> int
    decreases s.len() - j,
{
    if j < 0 || j + 5 > s.len() {
        -1
    } else if marker_at(s, j) {
        j
    } else {
        marker_from(s, j + 1)
    }
}

/// The field that began before `j` ends at `j`: at `stop`, at the end of the
/// line (`\n` or `\r\n`) or where the next `time=` starts.
pub open spec fn ends_field(s: Seq<char>, j: int, stop: char) -> bool {
    ||| s[j] == stop
    ||| s[j] == '\n'
    ||| (s[j] == '\r' && j + 1 < s.len() && s[j + 1] == '\n')
    ||| marker_at(s, j)
}

pub open spec fn field_end(s: Seq<char>, j: int, stop: char) -> int
    decreases s.len() - j,
{
    if j < 0 || j >= s.len() {
        s.len() as int
    } else if ends_field(s, j, stop) {
        j
    } else {
        field_end(s, j + 1, stop)
    }
}

/// The text that follows the first `time=` of a ping report, up to `stop`,
/// the end of its line or the next `time=`; `None` when there is no `time=`.
pub open spec fn ping_field(s: Seq<char>, stop: char) -> Option<Seq<char>> {
    let m = marker_from(s, 0);
    if m < 0 {
        None
    } else {
        Some(s.subrange(m + 5, field_end(s, m + 5, stop)))
    }
}

fn find_marker(s: &Vec<char>) -> (r: Option<usize>)
    ensures
        r matches Some(m) ==> m as int == marker_from(s@, 0) && m + 5 <= s@.len(),
        r is None ==> marker_from(s@, 0) < 0,
{
    let mut j: usize = 0;
    while s.len() >= 5 && j <= s.len() - 5
        invariant
            marker_from(s@, 0) == marker_from(s@, j as int),
        decreases s@.len() - j,
    {
        if s[j] == 't' && s[j + 1] == 'i' && s[j + 2] == 'm' && s[j + 3] == 'e' && s[j + 4] == '=' {
            return Some(j);
        }
        j = j + 1;
    }
    None
}

fn find_field_end(s: &Vec<char>, start: usize, stop: char) -> (r: usize)
    requires
        start <= s@.len(),
    ensures
        r as int == field_end(s@, start as int, stop),
        start <= r <= s@.len(),
{
    let mut j: usize = start;
    while j < s.len()
        invariant
            start <= j <= s@.len(),
            field_end(s@, start as int, stop) == field_end(s@, j as int, stop),
        decreases s@.len() - j,
    {
        let c = s[j];
        let at_marker = s.len() - j >= 5 && s[j] == 't' && s[j + 1] == 'i' && s[j + 2] == 'm'
            && s[j + 3] == 'e' && s[j + 4] == '=';
        if c == stop || c == '\n' || (c == '\r' && j + 1 < s.len() && s[j + 1] == '\n')
            || at_marker {
            return j;
        }
        j = j + 1;
    }
    j
}

pub open spec fn is_digit(c: char) -> bool {
    '0' <= c && c <= '9'
}

pub open spec fn all_digits(d: Seq<char>) -> bool {
    forall|i: int| 0 <= i < d.len() ==> is_digit(#[trigger] d[i])
}

/// Value of a string of decimal digits.
pub open spec fn digits_value(t: Seq<char>) -> nat
    decreases t.len(),
{
    if t.len() == 0 {
        0
    } else {
        digits_value(t.drop_last()) * 10 + ((t.last() as nat) - ('0' as nat)) as nat
    }
}

/// What `u64::from_str` accepts: an optional `+` and then at least one digit,
/// with a value that fits in 64 bits.
pub open spec fn decimal_u64(t: Seq<char>) -> Option<u64> {
    let d = if t.len() > 0 && t[0] == '+' { t.drop_first() } else { t };
    if d.len() > 0 && all_digits(d) && digits_value(d) <= u64::MAX {
        Some(digits_value(d) as u64)
    } else {
        None
    }
}

proof fn lemma_digits_grow(d: Seq<char>, k: int)
    requires
        0 <= k <= d.len(),
        forall|i: int| 0 <= i < d.len() ==> is_digit(#[trigger] d[i]),
    ensures
        digits_value(d.subrange(0, k)) <= digits_value(d),
    decreases d.len() - k,
{
    if k < d.len() {
        let e = d.subrange(0, k + 1);
        assert(e.drop_last() =~= d.subrange(0, k));
        lemma_digits_grow(d, k + 1);
    } else {
        assert(d.subrange(0, k) =~= d);
    }
}

/// Reads a decimal number as `u64::from_str` does.
pub fn parse_decimal(t: &Vec<char>) -> (r: Option<u64>)
    ensures
        r == decimal_u64(t@),
{
    let start: usize = if t.len() > 0 && t[0] == '+' { 1 } else { 0 };
    let ghost d = if t@.len() > 0 && t@[0] == '+' { t@.drop_first() } else { t@ };
    assert(d =~= t@.subrange(start as int, t@.len() as int));
    if start >= t.len() {
        return None;
    }
    let mut v: u64 = 0;
    let mut k: usize = start;
    while k < t.len()
        invariant
            start <= k <= t@.len(),
            d =~= t@.subrange(start as int, t@.len() as int),
            d == (if t@.len() > 0 && t@[0] == '+' { t@.drop_first() } else { t@ }),
            forall|i: int| 0 <= i < k - start ==> is_digit(#[trigger] d[i]),
            v as nat == digits_value(d.subrange(0, k - start)),
        decreases t@.len() - k,
    {
        let c = t[k];
        if !('0' <= c && c <= '9') {
            proof {
                let bad = k - start;
                assert(!is_digit(d[bad]));
                assert(!all_digits(d));
            }
            return None;
        }
        let digit: u64 = (c as u32 - '0' as u32) as u64;
        assert(d.subrange(0, k + 1 - start).drop_last() =~= d.subrange(0, k - start));
        if v > (u64::MAX - digit) / 10 {
            proof {
                let m = u64::MAX as int;
                let g = digit as int;
                assert(v * 10 + g > m) by (nonlinear_arith)
                    requires v > (m - g) / 10, 0 <= g <= 9, m > 0;
                assert(digits_value(d.subrange(0, k + 1 - start)) > u64::MAX);
                if all_digits(d) {
                    lemma_digits_grow(d, k + 1 - start);
                }
            }
            return None;
        }
        v = v * 10 + digit;
        k = k + 1;
    }
    assert(d.subrange(0, d.len() as int) =~= d);
    Some(v)
}

/// Latency in milliseconds from a Windows ping report (`time=12ms`); zero when
/// the report holds no readable time.
pub fn ping_latency_windows(output: &str) -> (r: u64)
    ensures
        r == (match ping_field(output@, 'm') {
            Some(t) => match decimal_u64(t) {
                Some(v) => v,
                None => 0,
            },
            None => 0,
        }),
{
    match ping_field_chars(output, 'm') {
        Some(t) => match parse_decimal(&t) {
            Some(v) => v,
            None => 0,
        },
        None => 0,
    }
}

/// The `time=` field of a ping report (see `ping_field`), as characters.
pub fn ping_field_chars(output: &str, stop: char) -> (r: Option<Vec<char>>)
    ensures
        r matches Some(t) ==> ping_field(output@, stop) == Some(t@),
        r is None ==> ping_field(output@, stop) is None,
{
    let s = crate::text::chars_of(output);
    let n: usize = s.len();
    match find_marker(&s) {
        None => None,
        Some(m) => {
            let end = find_field_end(&s, m + 5, stop);
            let mut t: Vec<char> = Vec::new();
            let mut k: usize = m + 5;
            while k < end
                invariant
                    m + 5 <= k <= end <= s@.len(),
                    t@ == s@.subrange(m + 5, k as int),
                decreases end - k,
            {
                t.push(s[k]);
                k = k + 1;
                assert(t@ =~= s@.subrange(m + 5, k as int));
            }
            Some(t)
        },
    }
}

} // verus!
