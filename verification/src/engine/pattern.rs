//! Matchers for the filename and directory-name formats the organizer reads:
//! episode markers, organized file and folder names, and season folders.
//! Each pattern is specified by what it matches at a position and by the
//! leftmost position at which it matches.

use vstd::prelude::*;
use crate::utils::text::{
    chars_of, is_digit, is_ws, is_whitespace, matches_at, occurs_at, parse_unsigned,
    parse_unsigned_chars, slice,
};

verus! {

/// Unicode decimal digits (general category `Nd`), the class written `\\d`.
pub open spec fn is_udigit(c: char) -> bool {
    let u = c as u32;
    ||| 0x30 <= u <= 0x39
    ||| 0x660 <= u <= 0x669
    ||| 0x6F0 <= u <= 0x6F9
    ||| 0x7C0 <= u <= 0x7C9
    ||| 0x966 <= u <= 0x96F
    ||| 0x9E6 <= u <= 0x9EF
    ||| 0xA66 <= u <= 0xA6F
    ||| 0xAE6 <= u <= 0xAEF
    ||| 0xB66 <= u <= 0xB6F
    ||| 0xBE6 <= u <= 0xBEF
    ||| 0xC66 <= u <= 0xC6F
    ||| 0xCE6 <= u <= 0xCEF
    ||| 0xD66 <= u <= 0xD6F
    ||| 0xDE6 <= u <= 0xDEF
    ||| 0xE50 <= u <= 0xE59
    ||| 0xED0 <= u <= 0xED9
    ||| 0xF20 <= u <= 0xF29
    ||| 0x1040 <= u <= 0x1049
    ||| 0x1090 <= u <= 0x1099
    ||| 0x17E0 <= u <= 0x17E9
    ||| 0x1810 <= u <= 0x1819
    ||| 0x1946 <= u <= 0x194F
    ||| 0x19D0 <= u <= 0x19D9
    ||| 0x1A80 <= u <= 0x1A89
    ||| 0x1A90 <= u <= 0x1A99
    ||| 0x1B50 <= u <= 0x1B59
    ||| 0x1BB0 <= u <= 0x1BB9
    ||| 0x1C40 <= u <= 0x1C49
    ||| 0x1C50 <= u <= 0x1C59
    ||| 0xA620 <= u <= 0xA629
    ||| 0xA8D0 <= u <= 0xA8D9
    ||| 0xA900 <= u <= 0xA909
    ||| 0xA9D0 <= u <= 0xA9D9
    ||| 0xA9F0 <= u <= 0xA9F9
    ||| 0xAA50 <= u <= 0xAA59
    ||| 0xABF0 <= u <= 0xABF9
    ||| 0xFF10 <= u <= 0xFF19
    ||| 0x104A0 <= u <= 0x104A9
    ||| 0x10D30 <= u <= 0x10D39
    ||| 0x10D40 <= u <= 0x10D49
    ||| 0x11066 <= u <= 0x1106F
    ||| 0x110F0 <= u <= 0x110F9
    ||| 0x11136 <= u <= 0x1113F
    ||| 0x111D0 <= u <= 0x111D9
    ||| 0x112F0 <= u <= 0x112F9
    ||| 0x11450 <= u <= 0x11459
    ||| 0x114D0 <= u <= 0x114D9
    ||| 0x11650 <= u <= 0x11659
    ||| 0x116C0 <= u <= 0x116C9
    ||| 0x116D0 <= u <= 0x116E3
    ||| 0x11730 <= u <= 0x11739
    ||| 0x118E0 <= u <= 0x118E9
    ||| 0x11950 <= u <= 0x11959
    ||| 0x11BF0 <= u <= 0x11BF9
    ||| 0x11C50 <= u <= 0x11C59
    ||| 0x11D50 <= u <= 0x11D59
    ||| 0x11DA0 <= u <= 0x11DA9
    ||| 0x11F50 <= u <= 0x11F59
    ||| 0x16130 <= u <= 0x16139
    ||| 0x16A60 <= u <= 0x16A69
    ||| 0x16AC0 <= u <= 0x16AC9
    ||| 0x16B50 <= u <= 0x16B59
    ||| 0x16D70 <= u <= 0x16D79
    ||| 0x1CCF0 <= u <= 0x1CCF9
    ||| 0x1D7CE <= u <= 0x1D7FF
    ||| 0x1E140 <= u <= 0x1E149
    ||| 0x1E2F0 <= u <= 0x1E2F9
    ||| 0x1E4F0 <= u <= 0x1E4F9
    ||| 0x1E5F1 <= u <= 0x1E5FA
    ||| 0x1E950 <= u <= 0x1E959
    ||| 0x1FBF0 <= u <= 0x1FBF9
}

pub fn is_unicode_digit(c: char) -> (r: bool)
    ensures
        r == is_udigit(c),
{
    let u = c as u32;
    (0x30 <= u && u <= 0x39) ||
        (0x660 <= u && u <= 0x669) ||
        (0x6F0 <= u && u <= 0x6F9) ||
        (0x7C0 <= u && u <= 0x7C9) ||
        (0x966 <= u && u <= 0x96F) ||
        (0x9E6 <= u && u <= 0x9EF) ||
        (0xA66 <= u && u <= 0xA6F) ||
        (0xAE6 <= u && u <= 0xAEF) ||
        (0xB66 <= u && u <= 0xB6F) ||
        (0xBE6 <= u && u <= 0xBEF) ||
        (0xC66 <= u && u <= 0xC6F) ||
        (0xCE6 <= u && u <= 0xCEF) ||
        (0xD66 <= u && u <= 0xD6F) ||
        (0xDE6 <= u && u <= 0xDEF) ||
        (0xE50 <= u && u <= 0xE59) ||
        (0xED0 <= u && u <= 0xED9) ||
        (0xF20 <= u && u <= 0xF29) ||
        (0x1040 <= u && u <= 0x1049) ||
        (0x1090 <= u && u <= 0x1099) ||
        (0x17E0 <= u && u <= 0x17E9) ||
        (0x1810 <= u && u <= 0x1819) ||
        (0x1946 <= u && u <= 0x194F) ||
        (0x19D0 <= u && u <= 0x19D9) ||
        (0x1A80 <= u && u <= 0x1A89) ||
        (0x1A90 <= u && u <= 0x1A99) ||
        (0x1B50 <= u && u <= 0x1B59) ||
        (0x1BB0 <= u && u <= 0x1BB9) ||
        (0x1C40 <= u && u <= 0x1C49) ||
        (0x1C50 <= u && u <= 0x1C59) ||
        (0xA620 <= u && u <= 0xA629) ||
        (0xA8D0 <= u && u <= 0xA8D9) ||
        (0xA900 <= u && u <= 0xA909) ||
        (0xA9D0 <= u && u <= 0xA9D9) ||
        (0xA9F0 <= u && u <= 0xA9F9) ||
        (0xAA50 <= u && u <= 0xAA59) ||
        (0xABF0 <= u && u <= 0xABF9) ||
        (0xFF10 <= u && u <= 0xFF19) ||
        (0x104A0 <= u && u <= 0x104A9) ||
        (0x10D30 <= u && u <= 0x10D39) ||
        (0x10D40 <= u && u <= 0x10D49) ||
        (0x11066 <= u && u <= 0x1106F) ||
        (0x110F0 <= u && u <= 0x110F9) ||
        (0x11136 <= u && u <= 0x1113F) ||
        (0x111D0 <= u && u <= 0x111D9) ||
        (0x112F0 <= u && u <= 0x112F9) ||
        (0x11450 <= u && u <= 0x11459) ||
        (0x114D0 <= u && u <= 0x114D9) ||
        (0x11650 <= u && u <= 0x11659) ||
        (0x116C0 <= u && u <= 0x116C9) ||
        (0x116D0 <= u && u <= 0x116E3) ||
        (0x11730 <= u && u <= 0x11739) ||
        (0x118E0 <= u && u <= 0x118E9) ||
        (0x11950 <= u && u <= 0x11959) ||
        (0x11BF0 <= u && u <= 0x11BF9) ||
        (0x11C50 <= u && u <= 0x11C59) ||
        (0x11D50 <= u && u <= 0x11D59) ||
        (0x11DA0 <= u && u <= 0x11DA9) ||
        (0x11F50 <= u && u <= 0x11F59) ||
        (0x16130 <= u && u <= 0x16139) ||
        (0x16A60 <= u && u <= 0x16A69) ||
        (0x16AC0 <= u && u <= 0x16AC9) ||
        (0x16B50 <= u && u <= 0x16B59) ||
        (0x16D70 <= u && u <= 0x16D79) ||
        (0x1CCF0 <= u && u <= 0x1CCF9) ||
        (0x1D7CE <= u && u <= 0x1D7FF) ||
        (0x1E140 <= u && u <= 0x1E149) ||
        (0x1E2F0 <= u && u <= 0x1E2F9) ||
        (0x1E4F0 <= u && u <= 0x1E4F9) ||
        (0x1E5F1 <= u && u <= 0x1E5FA) ||
        (0x1E950 <= u && u <= 0x1E959) ||
        (0x1FBF0 <= u && u <= 0x1FBF9)
}

/// Number of consecutive digits of `s` from index `i`, at most `cap`.
pub open spec fn digit_run(s: Seq<char>, i: int, cap: nat) -> nat
    decreases cap,
{
    if cap == 0 || i < 0 || i >= s.len() || !is_udigit(s[i]) {
        0
    } else {
        1 + digit_run(s, i + 1, (cap - 1) as nat)
    }
}

/// Number of consecutive white-space characters of `s` from index `i`.
pub open spec fn ws_run(s: Seq<char>, i: int) -> nat
    decreases s.len() - i,
{
    if i < 0 || i >= s.len() || !is_ws(s[i]) {
        0
    } else {
        1 + ws_run(s, i + 1)
    }
}

/// The first result of `f` at a position in `i..=end`.
pub open spec fn first_from<T>(f: spec_fn(int) -> Option<T>, i: int, end: int) -> Option<T>
    decreases end + 1 - i,
{
    if i > end {
        None
    } else {
        match f(i) {
            Some(t) => Some(t),
            None => first_from(f, i + 1, end),
        }
    }
}

/// Value of the digits `s[a..b]` as `str::parse::<u16>` reads them.
pub open spec fn span_u16(s: Seq<char>, a: int, b: int) -> Option<nat> {
    parse_unsigned(s.subrange(a, b), 65535)
}

/// Value of the digits `s[a..b]` as `str::parse::<u64>` reads them.
pub open spec fn span_u64(s: Seq<char>, a: int, b: int) -> Option<nat> {
    parse_unsigned(s.subrange(a, b), 18446744073709551615)
}

pub fn digit_run_exec(s: &Vec<char>, i: usize, cap: usize) -> (r: usize)
    ensures
        r == digit_run(s@, i as int, cap as nat),
        r <= cap,
        i + r <= s.len() || r == 0,
    decreases cap,
{
    if cap == 0 || i >= s.len() || !is_unicode_digit(s[i]) {
        0
    } else {
        1 + digit_run_exec(s, i + 1, cap - 1)
    }
}

pub fn ws_run_exec(s: &Vec<char>, i: usize) -> (r: usize)
    ensures
        r == ws_run(s@, i as int),
        i + r <= s.len() || r == 0,
    decreases s.len() - i,
{
    if i >= s.len() || !is_whitespace(s[i]) {
        0
    } else {
        1 + ws_run_exec(s, i + 1)
    }
}

pub fn span_u16_exec(s: &Vec<char>, a: usize, b: usize) -> (r: Option<u16>)
    requires
        a <= b <= s.len(),
    ensures
        match r {
            Some(n) => span_u16(s@, a as int, b as int) == Some(n as nat),
            None => span_u16(s@, a as int, b as int) is None,
        },
{
    let d = slice(s, a, b);
    match parse_unsigned_chars(&d, 65535) {
        Some(n) => Some(n as u16),
        None => None,
    }
}

pub fn span_u64_exec(s: &Vec<char>, a: usize, b: usize) -> (r: Option<u64>)
    requires
        a <= b <= s.len(),
    ensures
        match r {
            Some(n) => span_u64(s@, a as int, b as int) == Some(n as nat),
            None => span_u64(s@, a as int, b as int) is None,
        },
{
    let d = slice(s, a, b);
    parse_unsigned_chars(&d, 18446744073709551615)
}

} // verus!

verus! {

// ------------------------------------------------ `s(\d{1,2})e(\d{1,3})`

/// Match of `s(\d{1,2})e(\d{1,3})` starting at `i`: the spans of both groups.
pub open spec fn sxe_at(s: Seq<char>, i: int) -> Option<(int, int, int, int)> {
    if 0 <= i < s.len() && s[i] == 's' {
        let n = digit_run(s, i + 1, 2);
        if n >= 1 && i + 1 + n < s.len() && s[i + 1 + n] == 'e' {
            let m = digit_run(s, i + 2 + n, 3);
            if m >= 1 {
                Some((i + 1, i + 1 + n, i + 2 + n, i + 2 + n + m))
            } else {
                None
            }
        } else {
            None
        }
    } else {
        None
    }
}

pub open spec fn sxe_first(s: Seq<char>) -> Option<(int, int, int, int)> {
    first_from(|i: int| sxe_at(s, i), 0, s.len() as int)
}

pub open spec fn span4(r: Option<(usize, usize, usize, usize)>) -> Option<(int, int, int, int)> {
    match r {
        Some((a, b, c, d)) => Some((a as int, b as int, c as int, d as int)),
        None => None,
    }
}

pub open spec fn span2(r: Option<(usize, usize)>) -> Option<(int, int)> {
    match r {
        Some((a, b)) => Some((a as int, b as int)),
        None => None,
    }
}

fn sxe_at_exec(s: &Vec<char>, i: usize) -> (r: Option<(usize, usize, usize, usize)>)
    ensures
        span4(r) == sxe_at(s@, i as int),
        r matches Some((a, b, c, d)) ==> a <= b <= c <= d <= s.len(),
{
    if i < s.len() && s[i] == 's' {
        let n = digit_run_exec(s, i + 1, 2);
        if n >= 1 && i + 1 + n < s.len() && s[i + 1 + n] == 'e' {
            let m = digit_run_exec(s, i + 2 + n, 3);
            if m >= 1 {
                return Some((i + 1, i + 1 + n, i + 2 + n, i + 2 + n + m));
            }
        }
    }
    None
}

pub fn sxe_search(s: &Vec<char>) -> (r: Option<(usize, usize, usize, usize)>)
    ensures
        span4(r) == sxe_first(s@),
        r matches Some((a, b, c, d)) ==> a <= b <= c <= d <= s.len(),
{
    let ghost f = |i: int| sxe_at(s@, i);
    let n = s.len();
    let mut i: usize = 0;
    loop
        invariant
            i <= n,
            n == s.len(),
            f == (|i: int| sxe_at(s@, i)),
            first_from(f, 0, n as int) == first_from(f, i as int, n as int),
        decreases n - i,
    {
        let r = sxe_at_exec(s, i);
        assert(first_from(f, i as int, n as int) == match f(i as int) {
            Some(t) => Some(t),
            None => first_from(f, i + 1, n as int),
        });
        if r.is_some() {
            return r;
        }
        if i == n {
            assert(first_from(f, i + 1, n as int) is None);
            return None;
        }
        i = i + 1;
    }
}

// ------------------------------------------------ `第(\d{1,3})集`

pub open spec fn chinese_episode_at(s: Seq<char>, i: int) -> Option<(int, int)> {
    if 0 <= i < s.len() && s[i] == '第' {
        let n = digit_run(s, i + 1, 3);
        if n >= 1 && i + 1 + n < s.len() && s[i + 1 + n] == '集' {
            Some((i + 1, i + 1 + n))
        } else {
            None
        }
    } else {
        None
    }
}

pub open spec fn chinese_episode_first(s: Seq<char>) -> Option<(int, int)> {
    first_from(|i: int| chinese_episode_at(s, i), 0, s.len() as int)
}

fn chinese_episode_at_exec(s: &Vec<char>, i: usize) -> (r: Option<(usize, usize)>)
    ensures
        span2(r) == chinese_episode_at(s@, i as int),
        r matches Some((a, b)) ==> a <= b <= s.len(),
{
    if i < s.len() && s[i] == '第' {
        let n = digit_run_exec(s, i + 1, 3);
        if n >= 1 && i + 1 + n < s.len() && s[i + 1 + n] == '集' {
            return Some((i + 1, i + 1 + n));
        }
    }
    None
}

pub fn chinese_episode_search(s: &Vec<char>) -> (r: Option<(usize, usize)>)
    ensures
        span2(r) == chinese_episode_first(s@),
        r matches Some((a, b)) ==> a <= b <= s.len(),
{
    let ghost f = |i: int| chinese_episode_at(s@, i);
    let n = s.len();
    let mut i: usize = 0;
    loop
        invariant
            i <= n,
            n == s.len(),
            f == (|i: int| chinese_episode_at(s@, i)),
            first_from(f, 0, n as int) == first_from(f, i as int, n as int),
        decreases n - i,
    {
        let r = chinese_episode_at_exec(s, i);
        assert(first_from(f, i as int, n as int) == match f(i as int) {
            Some(t) => Some(t),
            None => first_from(f, i + 1, n as int),
        });
        if r.is_some() {
            return r;
        }
        if i == n {
            assert(first_from(f, i + 1, n as int) is None);
            return None;
        }
        i = i + 1;
    }
}

// ------------------------------------------------ digits followed by a non-ASCII-digit or the end

/// How many of the `k` digits at `d` a greedy `\d{1,k}` keeps when it must be
/// followed by the end of text or a character outside `[0-9]`.
pub open spec fn bounded_digits(s: Seq<char>, d: int, k: nat) -> nat
    decreases k,
{
    if k == 0 {
        0
    } else if d + k == s.len() || !is_digit(s[d + k]) {
        k
    } else {
        bounded_digits(s, d, (k - 1) as nat)
    }
}

fn bounded_digits_exec(s: &Vec<char>, d: usize, k: usize) -> (r: usize)
    requires
        d + k <= s.len(),
    ensures
        r == bounded_digits(s@, d as int, k as nat),
        r <= k,
    decreases k,
{
    if k == 0 {
        0
    } else if d + k == s.len() || !(s[d + k] >= '0' && s[d + k] <= '9') {
        k
    } else {
        bounded_digits_exec(s, d, k - 1)
    }
}

// ------------------------------------------------ `(?:^|[^a-z])e[p]?(\d{1,3})(?:[^0-9]|$)`

/// After an `e` at index `e`: optional `p`, then the kept episode digits.
pub open spec fn exx_tail(s: Seq<char>, e: int) -> Option<(int, int)> {
    if 0 <= e < s.len() && s[e] == 'e' {
        let d = if e + 1 < s.len() && s[e + 1] == 'p' {
            e + 2
        } else {
            e + 1
        };
        let k = bounded_digits(s, d, digit_run(s, d, 3));
        if k >= 1 {
            Some((d, d + k))
        } else {
            None
        }
    } else {
        None
    }
}

pub open spec fn is_ascii_lower(c: char) -> bool {
    'a' <= c <= 'z'
}

pub open spec fn exx_at(s: Seq<char>, i: int) -> Option<(int, int)> {
    if i == 0 && exx_tail(s, 0) is Some {
        exx_tail(s, 0)
    } else if 0 <= i < s.len() && !is_ascii_lower(s[i]) {
        exx_tail(s, i + 1)
    } else {
        None
    }
}

pub open spec fn exx_first(s: Seq<char>) -> Option<(int, int)> {
    first_from(|i: int| exx_at(s, i), 0, s.len() as int)
}

fn exx_tail_exec(s: &Vec<char>, e: usize) -> (r: Option<(usize, usize)>)
    ensures
        span2(r) == exx_tail(s@, e as int),
        r matches Some((a, b)) ==> a <= b <= s.len(),
{
    if e < s.len() && s[e] == 'e' {
        let d = if e + 1 < s.len() && s[e + 1] == 'p' {
            e + 2
        } else {
            e + 1
        };
        let run = digit_run_exec(s, d, 3);
        if run == 0 {
            return None;
        }
        let k = bounded_digits_exec(s, d, run);
        if k >= 1 {
            return Some((d, d + k));
        }
    }
    None
}

fn exx_at_exec(s: &Vec<char>, i: usize) -> (r: Option<(usize, usize)>)
    ensures
        span2(r) == exx_at(s@, i as int),
        r matches Some((a, b)) ==> a <= b <= s.len(),
{
    if i == 0 {
        let t = exx_tail_exec(s, 0);
        if t.is_some() {
            return t;
        }
    }
    if i < s.len() && !(s[i] >= 'a' && s[i] <= 'z') {
        exx_tail_exec(s, i + 1)
    } else {
        None
    }
}

pub fn exx_search(s: &Vec<char>) -> (r: Option<(usize, usize)>)
    ensures
        span2(r) == exx_first(s@),
        r matches Some((a, b)) ==> a <= b <= s.len(),
{
    let ghost f = |i: int| exx_at(s@, i);
    let n = s.len();
    let mut i: usize = 0;
    loop
        invariant
            i <= n,
            n == s.len(),
            f == (|i: int| exx_at(s@, i)),
            first_from(f, 0, n as int) == first_from(f, i as int, n as int),
        decreases n - i,
    {
        let r = exx_at_exec(s, i);
        assert(first_from(f, i as int, n as int) == match f(i as int) {
            Some(t) => Some(t),
            None => first_from(f, i + 1, n as int),
        });
        if r.is_some() {
            return r;
        }
        if i == n {
            assert(first_from(f, i + 1, n as int) is None);
            return None;
        }
        i = i + 1;
    }
}

// ------------------------------------------------ `^(\d{1,3})(?:\s|$|[^0-9])`

pub open spec fn leading_number_span(s: Seq<char>) -> nat {
    bounded_digits(s, 0, digit_run(s, 0, 3))
}

pub fn leading_number_exec(s: &Vec<char>) -> (r: usize)
    ensures
        r == leading_number_span(s@),
        r <= s.len(),
{
    let run = digit_run_exec(s, 0, 3);
    if run == 0 {
        return 0;
    }
    bounded_digits_exec(s, 0, run)
}

} // verus!

verus! {

// ------------------------------------------------ `season\s*(\d{1,2}).*episode\s*(\d{1,3})`

/// Index of the first `\n` at or after `from`, or the length of `s`.
pub open spec fn first_newline(s: Seq<char>, from: int) -> int
    decreases s.len() - from,
{
    if from < 0 || from >= s.len() {
        s.len() as int
    } else if s[from] == '\n' {
        from
    } else {
        first_newline(s, from + 1)
    }
}

/// The last result of `f` at a position in `lo..=q`, searching downwards.
pub open spec fn last_from<T>(f: spec_fn(int) -> Option<T>, lo: int, q: int) -> Option<T>
    decreases q + 1 - lo,
{
    if q < lo {
        None
    } else {
        match f(q) {
            Some(t) => Some(t),
            None => last_from(f, lo, q - 1),
        }
    }
}

/// `episode\s*(\d{1,3})` at `q`: the span of the digits.
pub open spec fn episode_word_at(s: Seq<char>, q: int) -> Option<(int, int)> {
    if occurs_at(s, "episode"@, q) {
        let d = q + 7 + ws_run(s, q + 7);
        let m = digit_run(s, d, 3);
        if m >= 1 {
            Some((d, d + m))
        } else {
            None
        }
    } else {
        None
    }
}

pub open spec fn season_episode_at(s: Seq<char>, i: int) -> Option<(int, int, int, int)> {
    if occurs_at(s, "season"@, i) {
        let d = i + 6 + ws_run(s, i + 6);
        let n = digit_run(s, d, 2);
        if n >= 1 {
            match last_from(|q: int| episode_word_at(s, q), d + n, first_newline(s, d + n)) {
                Some((a, b)) => Some((d, d + n, a, b)),
                None => None,
            }
        } else {
            None
        }
    } else {
        None
    }
}

pub open spec fn season_episode_first(s: Seq<char>) -> Option<(int, int, int, int)> {
    first_from(|i: int| season_episode_at(s, i), 0, s.len() as int)
}

fn first_newline_exec(s: &Vec<char>, from: usize) -> (r: usize)
    ensures
        r == first_newline(s@, from as int),
        r <= s.len(),
    decreases s.len() - from,
{
    if from >= s.len() {
        s.len()
    } else if s[from] == '\n' {
        from
    } else {
        first_newline_exec(s, from + 1)
    }
}

fn episode_word_at_exec(s: &Vec<char>, word: &Vec<char>, q: usize) -> (r: Option<(usize, usize)>)
    requires
        word@ == "episode"@,
    ensures
        span2(r) == episode_word_at(s@, q as int),
        r matches Some((a, b)) ==> a <= b <= s.len(),
{
    if matches_at(s, word, q) {
        assert(word@.len() == 7) by {
            reveal_strlit("episode");
        }
        assert(occurs_at(s@, word@, q as int));
        assert(q + 7 <= s.len());
        let w = ws_run_exec(s, q + 7);
        let d = q + 7 + w;
        let m = digit_run_exec(s, d, 3);
        if m >= 1 {
            return Some((d, d + m));
        }
    }
    None
}

/// The first `episode\s*(\d{1,3})` in `s`: the span of the digits.
pub open spec fn episode_word_first(s: Seq<char>) -> Option<(int, int)> {
    first_from(|q: int| episode_word_at(s, q), 0, s.len() as int)
}

pub fn episode_word_search(s: &Vec<char>) -> (r: Option<(usize, usize)>)
    ensures
        span2(r) == episode_word_first(s@),
        r matches Some((a, b)) ==> a <= b <= s.len(),
{
    let word = chars_of("episode");
    let ghost f = |q: int| episode_word_at(s@, q);
    let n = s.len();
    let mut i: usize = 0;
    loop
        invariant
            i <= n,
            n == s.len(),
            word@ == "episode"@,
            f == (|q: int| episode_word_at(s@, q)),
            first_from(f, 0, n as int) == first_from(f, i as int, n as int),
        decreases n - i,
    {
        let r = episode_word_at_exec(s, &word, i);
        assert(first_from(f, i as int, n as int) == match f(i as int) {
            Some(t) => Some(t),
            None => first_from(f, i + 1, n as int),
        });
        if r.is_some() {
            return r;
        }
        if i == n {
            assert(first_from(f, i + 1, n as int) is None);
            return None;
        }
        i = i + 1;
    }
}

fn last_episode_word(s: &Vec<char>, lo: usize, hi: usize) -> (r: Option<(usize, usize)>)
    requires
        hi <= s.len(),
    ensures
        span2(r) == last_from(|q: int| episode_word_at(s@, q), lo as int, hi as int),
        r matches Some((a, b)) ==> a <= b <= s.len(),
{
    let ghost f = |q: int| episode_word_at(s@, q);
    let word = chars_of("episode");
    if hi < lo {
        return None;
    }
    let mut q: usize = hi;
    loop
        invariant
            lo <= q <= hi <= s.len(),
            word@ == "episode"@,
            f == (|q: int| episode_word_at(s@, q)),
            last_from(f, lo as int, hi as int) == last_from(f, lo as int, q as int),
        decreases q,
    {
        let r = episode_word_at_exec(s, &word, q);
        assert(last_from(f, lo as int, q as int) == match f(q as int) {
            Some(t) => Some(t),
            None => last_from(f, lo as int, q - 1),
        });
        if r.is_some() {
            return r;
        }
        if q == lo {
            assert(last_from(f, lo as int, q - 1) is None);
            return None;
        }
        q = q - 1;
    }
}

fn season_episode_at_exec(s: &Vec<char>, word: &Vec<char>, i: usize) -> (r: Option<(usize, usize, usize, usize)>)
    requires
        word@ == "season"@,
    ensures
        span4(r) == season_episode_at(s@, i as int),
        r matches Some((a, b, c, d)) ==> a <= b <= s.len() && c <= d <= s.len(),
{
    if matches_at(s, word, i) {
        assert(word@.len() == 6) by {
            reveal_strlit("season");
        }
        assert(occurs_at(s@, word@, i as int));
        assert(i + 6 <= s.len());
        let w = ws_run_exec(s, i + 6);
        let d = i + 6 + w;
        let n = digit_run_exec(s, d, 2);
        if n >= 1 {
            let nl = first_newline_exec(s, d + n);
            match last_episode_word(s, d + n, nl) {
                Some((a, b)) => {
                    return Some((d, d + n, a, b));
                },
                None => {},
            }
        }
    }
    None
}

pub fn season_episode_search(s: &Vec<char>) -> (r: Option<(usize, usize, usize, usize)>)
    ensures
        span4(r) == season_episode_first(s@),
        r matches Some((a, b, c, d)) ==> a <= b <= s.len() && c <= d <= s.len(),
{
    let ghost f = |i: int| season_episode_at(s@, i);
    let word = chars_of("season");
    let n = s.len();
    let mut i: usize = 0;
    loop
        invariant
            i <= n,
            n == s.len(),
            word@ == "season"@,
            f == (|i: int| season_episode_at(s@, i)),
            first_from(f, 0, n as int) == first_from(f, i as int, n as int),
        decreases n - i,
    {
        let r = season_episode_at_exec(s, &word, i);
        assert(first_from(f, i as int, n as int) == match f(i as int) {
            Some(t) => Some(t),
            None => first_from(f, i + 1, n as int),
        });
        if r.is_some() {
            return r;
        }
        if i == n {
            assert(first_from(f, i + 1, n as int) is None);
            return None;
        }
        i = i + 1;
    }
}

} // verus!

verus! {

// ------------------------------------------------ organized names

/// Index of the first `c` at or after `from`, or the length of `s`.
pub open spec fn first_index_from(s: Seq<char>, c: char, from: int) -> int
    decreases s.len() - from,
{
    if from < 0 || from >= s.len() {
        s.len() as int
    } else if s[from] == c {
        from
    } else {
        first_index_from(s, c, from + 1)
    }
}

pub fn first_index_from_exec(s: &Vec<char>, c: char, from: usize) -> (r: usize)
    ensures
        r == first_index_from(s@, c, from as int),
        r <= s.len(),
        from <= s.len() ==> from <= r,
    decreases s.len() - from,
{
    if from >= s.len() {
        s.len()
    } else if s[from] == c {
        from
    } else {
        first_index_from_exec(s, c, from + 1)
    }
}

/// `tmdb(\d+)` at `t`, followed by `-` (or by the end of text when `to_end`).
pub open spec fn tmdb_digits_at(s: Seq<char>, t: int, to_end: bool) -> Option<(int, int)> {
    if occurs_at(s, "tmdb"@, t) {
        let r = digit_run(s, t + 4, s.len());
        let e = t + 4 + r;
        if r >= 1 && (if to_end {
            e == s.len()
        } else {
            e < s.len() && s[e] == '-'
        }) {
            Some((t + 4, e))
        } else {
            None
        }
    } else {
        None
    }
}

/// `-?tmdb(\d+)` at `q`.
pub open spec fn tmdb_at(s: Seq<char>, q: int, to_end: bool) -> Option<(int, int)> {
    if 0 <= q < s.len() && s[q] == '-' && tmdb_digits_at(s, q + 1, to_end) is Some {
        tmdb_digits_at(s, q + 1, to_end)
    } else {
        tmdb_digits_at(s, q, to_end)
    }
}

/// `(?:tt(\d+))?-?tmdb(\d+)` at `p`: the IMDB digits, when present, and the TMDB digits.
pub open spec fn ids_at(s: Seq<char>, p: int, to_end: bool) -> Option<(Option<(int, int)>, (int, int))> {
    let r1 = digit_run(s, p + 2, s.len());
    if occurs_at(s, "tt"@, p) && r1 >= 1 && tmdb_at(s, p + 2 + r1, to_end) is Some {
        Some((Some((p + 2, p + 2 + r1)), tmdb_at(s, p + 2 + r1, to_end)->0))
    } else {
        match tmdb_at(s, p, to_end) {
            Some(t) => Some((None, t)),
            None => None,
        }
    }
}

pub open spec fn span2_opt(r: Option<(Option<(usize, usize)>, (usize, usize))>) -> Option<
    (Option<(int, int)>, (int, int)),
> {
    match r {
        Some((o, (c, d))) => Some((span2(o), (c as int, d as int))),
        None => None,
    }
}

fn tmdb_digits_at_exec(s: &Vec<char>, word: &Vec<char>, t: usize, to_end: bool) -> (r: Option<(usize, usize)>)
    requires
        word@ == "tmdb"@,
    ensures
        span2(r) == tmdb_digits_at(s@, t as int, to_end),
        r matches Some((a, b)) ==> a <= b <= s.len(),
{
    if matches_at(s, word, t) {
        assert(word@.len() == 4) by {
            reveal_strlit("tmdb");
        }
        assert(occurs_at(s@, word@, t as int));
        assert(t + 4 <= s.len());
        let r = digit_run_exec(s, t + 4, s.len());
        let e = t + 4 + r;
        let ok = if to_end {
            e == s.len()
        } else {
            e < s.len() && s[e] == '-'
        };
        if r >= 1 && ok {
            return Some((t + 4, e));
        }
    }
    None
}

fn tmdb_at_exec(s: &Vec<char>, word: &Vec<char>, q: usize, to_end: bool) -> (r: Option<(usize, usize)>)
    requires
        word@ == "tmdb"@,
    ensures
        span2(r) == tmdb_at(s@, q as int, to_end),
        r matches Some((a, b)) ==> a <= b <= s.len(),
{
    if q < s.len() && s[q] == '-' {
        let t = tmdb_digits_at_exec(s, word, q + 1, to_end);
        if t.is_some() {
            return t;
        }
    }
    tmdb_digits_at_exec(s, word, q, to_end)
}

pub fn ids_at_exec(s: &Vec<char>, p: usize, to_end: bool) -> (r: Option<(Option<(usize, usize)>, (usize, usize))>)
    ensures
        span2_opt(r) == ids_at(s@, p as int, to_end),
        r matches Some((o, (c, d))) ==> c <= d <= s.len() && (o matches Some((a, b)) ==> a <= b
            <= s.len()),
{
    let tt = chars_of("tt");
    let word = chars_of("tmdb");
    if matches_at(s, &tt, p) {
        assert(tt@.len() == 2) by {
            reveal_strlit("tt");
        }
        assert(occurs_at(s@, tt@, p as int));
        let r1 = digit_run_exec(s, p + 2, s.len());
        if r1 >= 1 {
            let t = tmdb_at_exec(s, &word, p + 2 + r1, to_end);
            match t {
                Some(sp) => {
                    return Some((Some((p + 2, p + 2 + r1)), sp));
                },
                None => {},
            }
        }
    }
    match tmdb_at_exec(s, &word, p, to_end) {
        Some(t) => Some((None, t)),
        None => None,
    }
}

// `^\[.+\]-S\d{2}E\d{2,3}-\[.+\]-` and `^\[.+\](?:\[.+\])?\(\d{4}\)-(?:tt\d+)?-?tmdb\d+-`

/// `]-S\d{2}E\d{2,3}-[` at `a`: the index just after the `[`.
pub open spec fn tv_middle_at(s: Seq<char>, a: int) -> Option<int> {
    let r = digit_run(s, a + 6, 3);
    if occurs_at(s, "]-S"@, a) && digit_run(s, a + 3, 2) == 2 && a + 5 < s.len() && s[a + 5]
        == 'E' && r >= 2 && occurs_at(s, "-["@, a + 6 + r) {
        Some(a + 8 + r)
    } else {
        None
    }
}

/// `.+]-` at `m`, with no line break before the `]`.
pub open spec fn bracket_close_after(s: Seq<char>, m: int) -> bool {
    exists|c: int| m + 1 <= c <= first_newline(s, m) && #[trigger] occurs_at(s, "]-"@, c)
}

pub open spec fn tv_organized_at(s: Seq<char>, a: int) -> bool {
    2 <= a <= first_newline(s, 1) && tv_middle_at(s, a) is Some && bracket_close_after(
        s,
        tv_middle_at(s, a)->0,
    )
}

/// A name in the organized episode format.
pub open spec fn is_organized_tv_name(s: Seq<char>) -> bool {
    s.len() > 0 && s[0] == '[' && exists|a: int| #[trigger] tv_organized_at(s, a)
}

pub open spec fn movie_organized_at(s: Seq<char>, a: int, to_end: bool) -> bool {
    &&& 2 <= a <= first_newline(s, 1)
    &&& occurs_at(s, "]("@, a)
    &&& digit_run(s, a + 2, 4) == 4
    &&& occurs_at(s, ")-"@, a + 6)
    &&& ids_at(s, a + 8, to_end) is Some
}

/// A name in the organized movie format (`to_end`: the ids close the name, as for folders).
pub open spec fn is_organized_movie_name(s: Seq<char>, to_end: bool) -> bool {
    s.len() > 0 && s[0] == '[' && exists|a: int| #[trigger] movie_organized_at(s, a, to_end)
}

fn tv_middle_at_exec(s: &Vec<char>, a: usize) -> (r: Option<usize>)
    ensures
        match r {
            Some(m) => tv_middle_at(s@, a as int) == Some(m as int) && m <= s.len(),
            None => tv_middle_at(s@, a as int) is None,
        },
{
    let w1 = chars_of("]-S");
    let w2 = chars_of("-[");
    proof {
        reveal_strlit("]-S");
        reveal_strlit("-[");
    }
    if !matches_at(s, &w1, a) {
        return None;
    }
    assert(a + 3 <= s.len());
    if digit_run_exec(s, a + 3, 2) != 2 {
        return None;
    }
    if !(a + 5 < s.len() && s[a + 5] == 'E') {
        return None;
    }
    let r = digit_run_exec(s, a + 6, 3);
    if r < 2 {
        return None;
    }
    if !matches_at(s, &w2, a + 6 + r) {
        return None;
    }
    Some(a + 8 + r)
}

fn bracket_close_after_exec(s: &Vec<char>, m: usize) -> (r: bool)
    requires
        m <= s.len(),
    ensures
        r == bracket_close_after(s@, m as int),
{
    let w = chars_of("]-");
    let lim = first_newline_exec_pub(s, m);
    if lim <= m {
        return false;
    }
    let mut c: usize = m + 1;
    while c <= lim
        invariant
            c <= lim,
            m + 1 <= c,
            lim == first_newline(s@, m as int),
            lim <= s.len(),
            w@ == "]-"@,
            forall|k: int| m + 1 <= k < c ==> !occurs_at(s@, "]-"@, k),
        decreases lim + 1 - c,
    {
        if matches_at(s, &w, c) {
            return true;
        }
        if c == lim {
            return false;
        }
        c = c + 1;
    }
    false
}

pub fn first_newline_exec_pub(s: &Vec<char>, from: usize) -> (r: usize)
    ensures
        r == first_newline(s@, from as int),
        r <= s.len(),
    decreases s.len() - from,
{
    if from >= s.len() {
        s.len()
    } else if s[from] == '\n' {
        from
    } else {
        first_newline_exec_pub(s, from + 1)
    }
}

pub fn is_organized_tv_name_exec(s: &Vec<char>) -> (r: bool)
    ensures
        r == is_organized_tv_name(s@),
{
    if s.len() == 0 || s[0] != '[' {
        return false;
    }
    let lim = first_newline_exec_pub(s, 1);
    let mut a: usize = 2;
    if lim < 2 {
        assert forall|k: int| !tv_organized_at(s@, k) by {}
        return false;
    }
    while a <= lim
        invariant
            2 <= a <= lim,
            s@.len() > 0 && s@[0] == '[',
            lim == first_newline(s@, 1),
            lim <= s.len(),
            forall|k: int| 2 <= k < a ==> !tv_organized_at(s@, k),
        decreases lim + 1 - a,
    {
        match tv_middle_at_exec(s, a) {
            Some(m) => {
                if bracket_close_after_exec(s, m) {
                    assert(tv_organized_at(s@, a as int));
                    return true;
                }
            },
            None => {},
        }
        if a == lim {
            assert forall|k: int| !tv_organized_at(s@, k) by {}
            return false;
        }
        a = a + 1;
    }
    false
}

fn movie_organized_at_exec(s: &Vec<char>, a: usize, to_end: bool) -> (r: bool)
    requires
        2 <= a <= first_newline(s@, 1),
    ensures
        r == movie_organized_at(s@, a as int, to_end),
{
    let w1 = chars_of("](");
    let w2 = chars_of(")-");
    proof {
        reveal_strlit("](");
        reveal_strlit(")-");
    }
    if !matches_at(s, &w1, a) {
        return false;
    }
    assert(a + 2 <= s.len());
    if digit_run_exec(s, a + 2, 4) != 4 {
        return false;
    }
    if !matches_at(s, &w2, a + 6) {
        return false;
    }
    ids_at_exec(s, a + 8, to_end).is_some()
}

pub fn is_organized_movie_name_exec(s: &Vec<char>, to_end: bool) -> (r: bool)
    ensures
        r == is_organized_movie_name(s@, to_end),
{
    if s.len() == 0 || s[0] != '[' {
        return false;
    }
    let lim = first_newline_exec_pub(s, 1);
    let mut a: usize = 2;
    if lim < 2 {
        assert forall|k: int| !movie_organized_at(s@, k, to_end) by {}
        return false;
    }
    while a <= lim
        invariant
            2 <= a <= lim,
            s@.len() > 0 && s@[0] == '[',
            lim == first_newline(s@, 1),
            lim <= s.len(),
            forall|k: int| 2 <= k < a ==> !movie_organized_at(s@, k, to_end),
        decreases lim + 1 - a,
    {
        if movie_organized_at_exec(s, a, to_end) {
            assert(movie_organized_at(s@, a as int, to_end));
            return true;
        }
        if a == lim {
            assert forall|k: int| !movie_organized_at(s@, k, to_end) by {}
            return false;
        }
        a = a + 1;
    }
    false
}

} // verus!

verus! {

// ------------------------------------------------ season folders

/// `第(\d{1,2})季` at `i`: the digits.
pub open spec fn chinese_season_at(s: Seq<char>, i: int) -> Option<(int, int)> {
    if 0 <= i < s.len() && s[i] == '第' {
        let n = digit_run(s, i + 1, 2);
        if n >= 1 && i + 1 + n < s.len() && s[i + 1 + n] == '季' {
            Some((i + 1, i + 1 + n))
        } else {
            None
        }
    } else {
        None
    }
}

pub open spec fn chinese_season_first(s: Seq<char>) -> Option<(int, int)> {
    first_from(|i: int| chinese_season_at(s, i), 0, s.len() as int)
}

/// Characters matched by `s` under case-insensitive matching (simple case folding).
pub open spec fn folds_to_s(c: char) -> bool {
    c == 's' || c == 'S' || c == 'ſ'
}

/// `(?i)season` at `i`.
pub open spec fn season_word_at(s: Seq<char>, i: int) -> bool {
    &&& 0 <= i && i + 6 <= s.len()
    &&& folds_to_s(s[i])
    &&& (s[i + 1] == 'e' || s[i + 1] == 'E')
    &&& (s[i + 2] == 'a' || s[i + 2] == 'A')
    &&& folds_to_s(s[i + 3])
    &&& (s[i + 4] == 'o' || s[i + 4] == 'O')
    &&& (s[i + 5] == 'n' || s[i + 5] == 'N')
}

/// `(?i)season\s*(\d{1,2})` at `i`: the digits.
pub open spec fn season_number_at(s: Seq<char>, i: int) -> Option<(int, int)> {
    if season_word_at(s, i) {
        let d = i + 6 + ws_run(s, i + 6);
        let n = digit_run(s, d, 2);
        if n >= 1 {
            Some((d, d + n))
        } else {
            None
        }
    } else {
        None
    }
}

pub open spec fn season_number_first(s: Seq<char>) -> Option<(int, int)> {
    first_from(|i: int| season_number_at(s, i), 0, s.len() as int)
}

/// The separators `[\s\-_]`.
pub open spec fn is_sep(c: char) -> bool {
    is_ws(c) || c == '-' || c == '_'
}

/// `s(\d{1,2})` at `p` followed by the end or a separator (case-insensitive `s`).
pub open spec fn s_number_body(s: Seq<char>, p: int) -> Option<(int, int)> {
    if 0 <= p < s.len() && folds_to_s(s[p]) {
        let n = digit_run(s, p + 1, 2);
        let e = p + 1 + n;
        if n >= 1 && (e == s.len() || is_sep(s[e])) {
            Some((p + 1, e))
        } else {
            None
        }
    } else {
        None
    }
}

/// `(?i)(?:^|[\s\-_])s(\d{1,2})(?:$|[\s\-_])` at `i`: the digits.
pub open spec fn s_number_at(s: Seq<char>, i: int) -> Option<(int, int)> {
    if i == 0 && s_number_body(s, 0) is Some {
        s_number_body(s, 0)
    } else if 0 <= i < s.len() && is_sep(s[i]) {
        s_number_body(s, i + 1)
    } else {
        None
    }
}

pub open spec fn s_number_first(s: Seq<char>) -> Option<(int, int)> {
    first_from(|i: int| s_number_at(s, i), 0, s.len() as int)
}

fn chinese_season_at_exec(s: &Vec<char>, i: usize) -> (r: Option<(usize, usize)>)
    ensures
        span2(r) == chinese_season_at(s@, i as int),
        r matches Some((a, b)) ==> a <= b <= s.len(),
{
    if i < s.len() && s[i] == '第' {
        let n = digit_run_exec(s, i + 1, 2);
        if n >= 1 && i + 1 + n < s.len() && s[i + 1 + n] == '季' {
            return Some((i + 1, i + 1 + n));
        }
    }
    None
}

pub fn chinese_season_search(s: &Vec<char>) -> (r: Option<(usize, usize)>)
    ensures
        span2(r) == chinese_season_first(s@),
        r matches Some((a, b)) ==> a <= b <= s.len(),
{
    let ghost f = |i: int| chinese_season_at(s@, i);
    let n = s.len();
    let mut i: usize = 0;
    loop
        invariant
            i <= n,
            n == s.len(),
            f == (|i: int| chinese_season_at(s@, i)),
            first_from(f, 0, n as int) == first_from(f, i as int, n as int),
        decreases n - i,
    {
        let r = chinese_season_at_exec(s, i);
        assert(first_from(f, i as int, n as int) == match f(i as int) {
            Some(t) => Some(t),
            None => first_from(f, i + 1, n as int),
        });
        if r.is_some() {
            return r;
        }
        if i == n {
            assert(first_from(f, i + 1, n as int) is None);
            return None;
        }
        i = i + 1;
    }
}

fn is_s_fold(c: char) -> (r: bool)
    ensures
        r == folds_to_s(c),
{
    c == 's' || c == 'S' || c == 'ſ'
}

fn season_number_at_exec(s: &Vec<char>, i: usize) -> (r: Option<(usize, usize)>)
    ensures
        span2(r) == season_number_at(s@, i as int),
        r matches Some((a, b)) ==> a <= b <= s.len(),
{
    if i <= s.len() && 6 <= s.len() - i {
        if is_s_fold(s[i]) && (s[i + 1] == 'e' || s[i + 1] == 'E') && (s[i + 2] == 'a' || s[i + 2]
            == 'A') && is_s_fold(s[i + 3]) && (s[i + 4] == 'o' || s[i + 4] == 'O') && (s[i + 5]
            == 'n' || s[i + 5] == 'N') {
            let w = ws_run_exec(s, i + 6);
            let d = i + 6 + w;
            let n = digit_run_exec(s, d, 2);
            if n >= 1 {
                return Some((d, d + n));
            }
        }
    }
    None
}

pub fn season_number_search(s: &Vec<char>) -> (r: Option<(usize, usize)>)
    ensures
        span2(r) == season_number_first(s@),
        r matches Some((a, b)) ==> a <= b <= s.len(),
{
    let ghost f = |i: int| season_number_at(s@, i);
    let n = s.len();
    let mut i: usize = 0;
    loop
        invariant
            i <= n,
            n == s.len(),
            f == (|i: int| season_number_at(s@, i)),
            first_from(f, 0, n as int) == first_from(f, i as int, n as int),
        decreases n - i,
    {
        let r = season_number_at_exec(s, i);
        assert(first_from(f, i as int, n as int) == match f(i as int) {
            Some(t) => Some(t),
            None => first_from(f, i + 1, n as int),
        });
        if r.is_some() {
            return r;
        }
        if i == n {
            assert(first_from(f, i + 1, n as int) is None);
            return None;
        }
        i = i + 1;
    }
}

fn is_sep_exec(c: char) -> (r: bool)
    ensures
        r == is_sep(c),
{
    is_whitespace(c) || c == '-' || c == '_'
}

fn s_number_body_exec(s: &Vec<char>, p: usize) -> (r: Option<(usize, usize)>)
    ensures
        span2(r) == s_number_body(s@, p as int),
        r matches Some((a, b)) ==> a <= b <= s.len(),
{
    if p < s.len() && is_s_fold(s[p]) {
        let n = digit_run_exec(s, p + 1, 2);
        let e = p + 1 + n;
        if n >= 1 && (e == s.len() || is_sep_exec(s[e])) {
            return Some((p + 1, e));
        }
    }
    None
}

fn s_number_at_exec(s: &Vec<char>, i: usize) -> (r: Option<(usize, usize)>)
    ensures
        span2(r) == s_number_at(s@, i as int),
        r matches Some((a, b)) ==> a <= b <= s.len(),
{
    if i == 0 {
        let b = s_number_body_exec(s, 0);
        if b.is_some() {
            return b;
        }
    }
    if i < s.len() && is_sep_exec(s[i]) {
        s_number_body_exec(s, i + 1)
    } else {
        None
    }
}

pub fn s_number_search(s: &Vec<char>) -> (r: Option<(usize, usize)>)
    ensures
        span2(r) == s_number_first(s@),
        r matches Some((a, b)) ==> a <= b <= s.len(),
{
    let ghost f = |i: int| s_number_at(s@, i);
    let n = s.len();
    let mut i: usize = 0;
    loop
        invariant
            i <= n,
            n == s.len(),
            f == (|i: int| s_number_at(s@, i)),
            first_from(f, 0, n as int) == first_from(f, i as int, n as int),
        decreases n - i,
    {
        let r = s_number_at_exec(s, i);
        assert(first_from(f, i as int, n as int) == match f(i as int) {
            Some(t) => Some(t),
            None => first_from(f, i + 1, n as int),
        });
        if r.is_some() {
            return r;
        }
        if i == n {
            assert(first_from(f, i + 1, n as int) is None);
            return None;
        }
        i = i + 1;
    }
}

} // verus!
