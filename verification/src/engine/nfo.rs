//! Reading movie.nfo and tvshow.nfo files: the tags that the index takes
//! from them, found as a forgiving scan of the text rather than as XML.

use vstd::prelude::*;
use crate::engine::pattern::{
    digit_run, digit_run_exec, first_from, first_index_from, first_index_from_exec, span2, ws_run,
    ws_run_exec,
};
use crate::engine::clock::{new_uuid, now_rfc3339, rfc3339_text, utc_time_valid, uuid_v4_text, UtcTime};
use crate::engine::indexer::{country_code, country_name_to_code};
use crate::error::Error;
use crate::models::index::{MovieEntry, TvShowEntry};
use crate::utils::text::{
    chars_of, find_from, is_ws, matches_at, occurs_at, parse_unsigned, parse_unsigned_chars, slice,
    string_of, trim, trim_chars,
};

verus! {

// ------------------------------------------------------------ tag scanning

/// Where the shortest text that starts at `from` and is followed by
/// `close` ends (the index of `close`), or -1; unless `dotall`, the text
/// may not hold a line end.
pub open spec fn lazy_close(s: Seq<char>, close: Seq<char>, from: int, dotall: bool) -> int
    decreases s.len() + 1 - from,
{
    if from < 0 || from > s.len() {
        -1
    } else if occurs_at(s, close, from) {
        from
    } else if from == s.len() {
        -1
    } else if !dotall && s[from] == '\n' {
        -1
    } else {
        lazy_close(s, close, from + 1, dotall)
    }
}

pub proof fn lemma_lazy_close(s: Seq<char>, close: Seq<char>, from: int, dotall: bool)
    ensures
        lazy_close(s, close, from, dotall) >= 0 ==> from <= lazy_close(s, close, from, dotall)
            && occurs_at(s, close, lazy_close(s, close, from, dotall)),
    decreases s.len() + 1 - from,
{
    if 0 <= from < s.len() && !occurs_at(s, close, from) && (dotall || s[from] != '\n') {
        lemma_lazy_close(s, close, from + 1, dotall);
    }
}

/// `<tag>` written out.
pub open spec fn open_tag(tag: Seq<char>) -> Seq<char> {
    seq!['<'] + tag + seq!['>']
}

/// `</tag>` written out.
pub open spec fn close_tag(tag: Seq<char>) -> Seq<char> {
    seq!['<', '/'] + tag + seq!['>']
}

/// The element `open`(text)`close` starting at `i`, with its text on one
/// line unless `dotall`: the bounds of the text.
pub open spec fn tag_at(s: Seq<char>, open: Seq<char>, close: Seq<char>, i: int, dotall: bool) -> Option<(int, int)> {
    if occurs_at(s, open, i) && lazy_close(s, close, i + open.len(), dotall) >= 0 {
        Some((i + open.len(), lazy_close(s, close, i + open.len(), dotall)))
    } else {
        None
    }
}

/// The first such element at or after `from`.
pub open spec fn first_tag(s: Seq<char>, open: Seq<char>, close: Seq<char>, from: int, dotall: bool) -> Option<
    (int, int),
>
    decreases s.len() + 1 - from,
{
    if from < 0 || from > s.len() {
        None
    } else {
        match tag_at(s, open, close, from, dotall) {
            Some(p) => Some(p),
            None => first_tag(s, open, close, from + 1, dotall),
        }
    }
}

pub proof fn lemma_first_tag(s: Seq<char>, open: Seq<char>, close: Seq<char>, from: int, dotall: bool)
    ensures
        first_tag(s, open, close, from, dotall) matches Some((a, b)) ==> from + open.len() <= a <= b
            && b + close.len() <= s.len(),
    decreases s.len() + 1 - from,
{
    if 0 <= from <= s.len() {
        lemma_lazy_close(s, close, from + open.len(), dotall);
        if tag_at(s, open, close, from, dotall) is None {
            lemma_first_tag(s, open, close, from + 1, dotall);
        }
    }
}

/// The text of the first `<tag>`…`</tag>` on one line, trimmed.
pub open spec fn tag_text(s: Seq<char>, tag: Seq<char>) -> Option<Seq<char>> {
    match first_tag(s, open_tag(tag), close_tag(tag), 0, false) {
        Some((a, b)) => Some(trim(s.subrange(a, b))),
        None => None,
    }
}

/// The trimmed texts of every such element from `from` on, in order,
/// leaving out the empty ones; the scan goes on after each element.
pub open spec fn tag_list(s: Seq<char>, open: Seq<char>, close: Seq<char>, from: int, dotall: bool) -> Seq<Seq<char>>
    decreases s.len() + 1 - from,
{
    if open.len() == 0 {
        seq![]
    } else {
        match first_tag(s, open, close, from, dotall) {
            None => seq![],
            Some((a, b)) => {
                proof {
                    lemma_first_tag(s, open, close, from, dotall);
                }
                let t = trim(s.subrange(a, b));
                (if t.len() > 0 {
                    seq![t]
                } else {
                    seq![]
                }) + tag_list(s, open, close, b + close.len(), dotall)
            },
        }
    }
}

/// The trimmed, non-empty texts of every `<tag>`…`</tag>` on one line.
pub open spec fn tag_texts(s: Seq<char>, tag: Seq<char>) -> Seq<Seq<char>> {
    tag_list(s, open_tag(tag), close_tag(tag), 0, false)
}

/// The trimmed, non-empty texts of every `<tag>`…`</tag>`, each of which
/// may run over several lines.
pub open spec fn block_texts(s: Seq<char>, tag: Seq<char>) -> Seq<Seq<char>> {
    tag_list(s, open_tag(tag), close_tag(tag), 0, true)
}

fn lazy_close_exec(s: &Vec<char>, close: &Vec<char>, from: usize, dotall: bool) -> (r: Option<usize>)
    ensures
        match r {
            Some(j) => lazy_close(s@, close@, from as int, dotall) == j,
            None => lazy_close(s@, close@, from as int, dotall) == -1,
        },
{
    if from > s.len() {
        return None;
    }
    let mut m: usize = from;
    while m <= s.len()
        invariant
            from <= m <= s@.len(),
            lazy_close(s@, close@, from as int, dotall) == lazy_close(s@, close@, m as int, dotall),
        decreases s@.len() + 1 - m,
    {
        if matches_at(s, close, m) {
            return Some(m);
        }
        if m == s.len() {
            return None;
        }
        if !dotall && s[m] == '\n' {
            return None;
        }
        m = m + 1;
    }
    None
}

fn tag_at_exec(s: &Vec<char>, open: &Vec<char>, close: &Vec<char>, i: usize, dotall: bool) -> (r: Option<(usize, usize)>)
    ensures
        match r {
            Some((a, b)) => tag_at(s@, open@, close@, i as int, dotall) == Some((a as int, b as int)),
            None => tag_at(s@, open@, close@, i as int, dotall) is None,
        },
{
    let n: usize = s.len();
    if !matches_at(s, open, i) {
        return None;
    }
    assert(i + open@.len() <= n);
    let a = i + open.len();
    match lazy_close_exec(s, close, a, dotall) {
        Some(b) => Some((a, b)),
        None => None,
    }
}

/// The first element at or after `from`.
fn first_tag_exec(s: &Vec<char>, open: &Vec<char>, close: &Vec<char>, from: usize, dotall: bool) -> (r: Option<(usize, usize)>)
    ensures
        match r {
            Some((a, b)) => first_tag(s@, open@, close@, from as int, dotall) == Some((a as int, b as int)),
            None => first_tag(s@, open@, close@, from as int, dotall) is None,
        },
{
    if from > s.len() {
        return None;
    }
    let mut i: usize = from;
    loop
        invariant
            from <= i <= s@.len(),
            first_tag(s@, open@, close@, from as int, dotall) == first_tag(s@, open@, close@, i as int, dotall),
        decreases s@.len() - i,
    {
        // the next place where `open` occurs; none between `i` and it
        match find_from(s, open, i) {
            None => {
                proof {
                    lemma_no_tag(s@, open@, close@, i as int, (s@.len() + 1) as int, dotall);
                }
                return None;
            },
            Some(k) => {
                proof {
                    lemma_no_tag(s@, open@, close@, i as int, k as int, dotall);
                }
                let t = tag_at_exec(s, open, close, k, dotall);
                if t.is_some() {
                    return t;
                }
                if k == s.len() {
                    assert(first_tag(s@, open@, close@, k + 1, dotall) is None);
                    return None;
                }
                i = k + 1;
            },
        }
    }
}

/// Positions where `open` does not occur hold no element.
proof fn lemma_no_tag(s: Seq<char>, open: Seq<char>, close: Seq<char>, i: int, k: int, dotall: bool)
    requires
        0 <= i <= k,
        k <= s.len() + 1,
        forall|j: int| i <= j < k ==> !occurs_at(s, open, j),
    ensures
        first_tag(s, open, close, i, dotall) == first_tag(s, open, close, k, dotall),
    decreases k - i,
{
    if i < k {
        lemma_no_tag(s, open, close, i + 1, k, dotall);
    }
}

/// The trimmed text of the first `<tag>`…`</tag>` on one line.
pub fn nfo_tag(content: &str, tag: &str) -> (r: Option<String>)
    ensures
        match r {
            Some(t) => tag_text(content@, tag@) == Some(t@),
            None => tag_text(content@, tag@) is None,
        },
{
    let s = chars_of(content);
    tag_text_chars(&s, tag)
}

fn tag_parts(tag: &str) -> (r: (Vec<char>, Vec<char>))
    ensures
        r.0@ == open_tag(tag@),
        r.1@ == close_tag(tag@),
{
    let mut open: Vec<char> = Vec::new();
    open.push('<');
    crate::utils::text::push_str(&mut open, tag);
    open.push('>');
    let mut close: Vec<char> = Vec::new();
    close.push('<');
    close.push('/');
    crate::utils::text::push_str(&mut close, tag);
    close.push('>');
    assert(open@ =~= open_tag(tag@));
    assert(close@ =~= close_tag(tag@));
    (open, close)
}

fn tag_text_chars(s: &Vec<char>, tag: &str) -> (r: Option<String>)
    ensures
        match r {
            Some(t) => tag_text(s@, tag@) == Some(t@),
            None => tag_text(s@, tag@) is None,
        },
{
    let (open, close) = tag_parts(tag);
    match first_tag_exec(s, &open, &close, 0, false) {
        Some((a, b)) => {
            proof {
                lemma_first_tag(s@, open@, close@, 0, false);
            }
            let t = trim_chars(&slice(s, a, b));
            Some(string_of(&t))
        },
        None => None,
    }
}

/// The trimmed, non-empty texts of every `<tag>`…`</tag>` on one line.
pub fn nfo_tags(content: &str, tag: &str) -> (r: Vec<String>)
    ensures
        r@.map_values(|t: String| t@) == tag_texts(content@, tag@),
{
    let s = chars_of(content);
    tag_texts_chars(&s, tag, false)
}

fn tag_texts_chars(s: &Vec<char>, tag: &str, dotall: bool) -> (r: Vec<String>)
    ensures
        r@.map_values(|t: String| t@) == tag_list(s@, open_tag(tag@), close_tag(tag@), 0, dotall),
{
    let (open, close) = tag_parts(tag);
    let ghost o = open@;
    let ghost c = close@;
    let mut out: Vec<String> = Vec::new();
    let mut from: usize = 0;
    let ghost done: Seq<Seq<char>> = Seq::empty();
    assert(o.len() > 0);
    loop
        invariant
            o == open@,
            c == close@,
            o == open_tag(tag@),
            c == close_tag(tag@),
            o.len() > 0,
            from <= s@.len() + 1,
            out@.map_values(|t: String| t@) == done,
            done + tag_list(s@, o, c, from as int, dotall) == tag_list(s@, o, c, 0, dotall),
        decreases s@.len() + 1 - from,
    {
        if from > s.len() {
            assert(first_tag(s@, o, c, from as int, dotall) is None);
            assert(tag_list(s@, o, c, from as int, dotall) =~= Seq::<Seq<char>>::empty());
            assert(done + tag_list(s@, o, c, from as int, dotall) =~= done);
            return out;
        }
        match first_tag_exec(s, &open, &close, from, dotall) {
            None => {
                assert(done + tag_list(s@, o, c, from as int, dotall) =~= done);
                return out;
            },
            Some((a, b)) => {
                proof {
                    lemma_first_tag(s@, o, c, from as int, dotall);
                }
                let t = trim_chars(&slice(s, a, b));
                let ghost rest = tag_list(s@, o, c, b + c.len(), dotall);
                if t.len() > 0 {
                    let ghost before = out@;
                    out.push(string_of(&t));
                    proof {
                        assert(out@.map_values(|t: String| t@) =~= before.map_values(|t: String| t@).push(
                            t@,
                        ));
                        assert(done + tag_list(s@, o, c, from as int, dotall) =~= done.push(t@) + rest);
                        done = done.push(t@);
                    }
                } else {
                    assert(done + tag_list(s@, o, c, from as int, dotall) =~= done + rest);
                }
                from = b + close.len();
            },
        }
    }
}

// ------------------------------------------------------------ special forms

/// `<set>`, white space, `<name>`, then the shortest text (line ends
/// allowed) up to `</name>`: the bounds of that text.
pub open spec fn set_name_at(s: Seq<char>, i: int) -> Option<(int, int)> {
    if occurs_at(s, "<set>"@, i) {
        let w = i + 5 + ws_run(s, i + 5);
        if occurs_at(s, "<name>"@, w) && lazy_close(s, "</name>"@, w + 6, true) >= 0 {
            Some((w + 6, lazy_close(s, "</name>"@, w + 6, true)))
        } else {
            None
        }
    } else {
        None
    }
}

/// `<totalmovies>`, digits, `</totalmovies>` at `p`: the bounds of the digits.
pub open spec fn total_at(s: Seq<char>, p: int) -> Option<(int, int)> {
    if occurs_at(s, "<totalmovies>"@, p) {
        let d = digit_run(s, p + 13, s.len());
        if d > 0 && occurs_at(s, "</totalmovies>"@, p + 13 + d) {
            Some((p + 13, p + 13 + d))
        } else {
            None
        }
    } else {
        None
    }
}

/// `<set>` at `i`, then the first total after it.
pub open spec fn set_total_at(s: Seq<char>, i: int) -> Option<(int, int)> {
    if occurs_at(s, "<set>"@, i) {
        first_from(|p: int| total_at(s, p), i + 5, s.len() as int)
    } else {
        None
    }
}

/// `<uniqueid`, attributes holding `attr` (no `>` in between), `>`, then
/// `prefix` and digits, then `</uniqueid>`: the bounds of prefix and digits.
pub open spec fn uid_at(s: Seq<char>, i: int, attr: Seq<char>, prefix: Seq<char>) -> Option<(int, int)> {
    if occurs_at(s, "<uniqueid"@, i) {
        let gt = first_index_from(s, '>', i + 9);
        if gt < s.len() && (exists|q: int| i + 9 <= q && q + attr.len() <= gt && #[trigger] occurs_at(s, attr, q)) {
            let a = gt + 1;
            let d = digit_run(s, a + prefix.len(), s.len());
            if occurs_at(s, prefix, a) && d > 0 && occurs_at(s, "</uniqueid>"@, a + prefix.len() + d) {
                Some((a, a + prefix.len() + d))
            } else {
                None
            }
        } else {
            None
        }
    } else {
        None
    }
}

/// The bytes of a character in UTF-8.
pub open spec fn utf8_len(c: char) -> int {
    if (c as u32) < 0x80 {
        1
    } else if (c as u32) < 0x800 {
        2
    } else if (c as u32) < 0x10000 {
        3
    } else {
        4
    }
}

/// The characters that make up the first `n` bytes, when a character
/// ends there.
pub open spec fn byte_prefix(s: Seq<char>, n: int) -> Option<Seq<char>>
    decreases s.len(),
{
    if n == 0 {
        Some(Seq::empty())
    } else if n < 0 || s.len() == 0 {
        None
    } else {
        match byte_prefix(s.drop_first(), n - utf8_len(s[0])) {
            Some(r) => Some(seq![s[0]] + r),
            None => None,
        }
    }
}

fn set_name_at_exec(s: &Vec<char>, i: usize) -> (r: Option<(usize, usize)>)
    ensures
        span2(r) == set_name_at(s@, i as int),
        r matches Some((a, b)) ==> a <= b <= s@.len(),
{
    let n: usize = s.len();
    proof {
        reveal_strlit("<set>");
        reveal_strlit("<name>");
        reveal_strlit("</name>");
    }
    let set = chars_of("<set>");
    if !matches_at(s, &set, i) {
        return None;
    }
    let w0 = i + 5;
    let k = ws_run_exec(s, w0);
    let w = w0 + k;
    let name = chars_of("<name>");
    if !matches_at(s, &name, w) {
        return None;
    }
    let close = chars_of("</name>");
    proof {
        lemma_lazy_close(s@, close@, w + 6, true);
    }
    match lazy_close_exec(s, &close, w + 6, true) {
        Some(b) => Some((w + 6, b)),
        None => None,
    }
}

fn set_name_span(s: &Vec<char>) -> (r: Option<(usize, usize)>)
    ensures
        span2(r) == first_from(|i: int| set_name_at(s@, i), 0, s@.len() as int),
        r matches Some((a, b)) ==> a <= b <= s@.len(),
{
    let ghost f = |i: int| set_name_at(s@, i);
    let n = s.len();
    let mut i: usize = 0;
    loop
        invariant
            i <= n,
            n == s@.len(),
            f == (|i: int| set_name_at(s@, i)),
            first_from(f, 0, n as int) == first_from(f, i as int, n as int),
        decreases n - i,
    {
        let r = set_name_at_exec(s, i);
        assert(first_from(f, i as int, n as int) == match f(i as int) {
            Some(t) => Some(t),
            None => first_from(f, i + 1, n as int),
        });
        if r.is_some() {
            return r;
        }
        if i == n {
            assert(first_from(f, i + 1, n as int) is None);
            return None;
        }
        i = i + 1;
    }
}

fn total_at_exec(s: &Vec<char>, p: usize) -> (r: Option<(usize, usize)>)
    ensures
        span2(r) == total_at(s@, p as int),
        r matches Some((a, b)) ==> a <= b <= s@.len(),
{
    let n: usize = s.len();
    proof {
        reveal_strlit("<totalmovies>");
        reveal_strlit("</totalmovies>");
    }
    let open = chars_of("<totalmovies>");
    if !matches_at(s, &open, p) {
        return None;
    }
    let d = digit_run_exec(s, p + 13, n);
    let close = chars_of("</totalmovies>");
    if d > 0 && matches_at(s, &close, p + 13 + d) {
        Some((p + 13, p + 13 + d))
    } else {
        None
    }
}

fn first_total_from(s: &Vec<char>, from: usize) -> (r: Option<(usize, usize)>)
    ensures
        span2(r) == first_from(|p: int| total_at(s@, p), from as int, s@.len() as int),
        r matches Some((a, b)) ==> a <= b <= s@.len(),
{
    let ghost f = |p: int| total_at(s@, p);
    let n = s.len();
    if from > n {
        return None;
    }
    let mut i: usize = from;
    loop
        invariant
            from <= i <= n,
            n == s@.len(),
            f == (|p: int| total_at(s@, p)),
            first_from(f, from as int, n as int) == first_from(f, i as int, n as int),
        decreases n - i,
    {
        let r = total_at_exec(s, i);
        assert(first_from(f, i as int, n as int) == match f(i as int) {
            Some(t) => Some(t),
            None => first_from(f, i + 1, n as int),
        });
        if r.is_some() {
            return r;
        }
        if i == n {
            assert(first_from(f, i + 1, n as int) is None);
            return None;
        }
        i = i + 1;
    }
}

fn set_total_span(s: &Vec<char>) -> (r: Option<(usize, usize)>)
    ensures
        span2(r) == first_from(|i: int| set_total_at(s@, i), 0, s@.len() as int),
        r matches Some((a, b)) ==> a <= b <= s@.len(),
{
    let ghost f = |i: int| set_total_at(s@, i);
    let n = s.len();
    proof {
        reveal_strlit("<set>");
    }
    let set = chars_of("<set>");
    let mut i: usize = 0;
    loop
        invariant
            i <= n,
            n == s@.len(),
            set@ == "<set>"@,
            f == (|i: int| set_total_at(s@, i)),
            first_from(f, 0, n as int) == first_from(f, i as int, n as int),
        decreases n - i,
    {
        proof {
            reveal_strlit("<set>");
        }
        let r = if matches_at(s, &set, i) {
            first_total_from(s, i + 5)
        } else {
            None
        };
        assert(first_from(f, i as int, n as int) == match f(i as int) {
            Some(t) => Some(t),
            None => first_from(f, i + 1, n as int),
        });
        if r.is_some() {
            return r;
        }
        if i == n {
            assert(first_from(f, i + 1, n as int) is None);
            return None;
        }
        i = i + 1;
    }
}

fn uid_at_exec(s: &Vec<char>, i: usize, attr: &Vec<char>, prefix: &Vec<char>) -> (r: Option<(usize, usize)>)
    ensures
        span2(r) == uid_at(s@, i as int, attr@, prefix@),
        r matches Some((a, b)) ==> a <= b <= s@.len(),
{
    let n: usize = s.len();
    proof {
        reveal_strlit("<uniqueid");
        reveal_strlit("</uniqueid>");
    }
    let open = chars_of("<uniqueid");
    if !matches_at(s, &open, i) {
        return None;
    }
    let gt = first_index_from_exec(s, '>', i + 9);
    if gt >= n {
        return None;
    }
    let has_attr = match find_from(s, attr, i + 9) {
        Some(q) => q + attr.len() <= gt,
        None => false,
    };
    proof {
        if !has_attr {
            assert forall|q: int| i + 9 <= q && q + attr@.len() <= gt implies !#[trigger] occurs_at(s@, attr@, q) by {}
        }
    }
    if !has_attr {
        return None;
    }
    let a = gt + 1;
    if !matches_at(s, prefix, a) {
        return None;
    }
    let d = digit_run_exec(s, a + prefix.len(), n);
    let close = chars_of("</uniqueid>");
    if d > 0 && matches_at(s, &close, a + prefix.len() + d) {
        Some((a, a + prefix.len() + d))
    } else {
        None
    }
}

fn first_uid(s: &Vec<char>, attr: &Vec<char>, prefix: &Vec<char>) -> (r: Option<(usize, usize)>)
    ensures
        span2(r) == first_from(|i: int| uid_at(s@, i, attr@, prefix@), 0, s@.len() as int),
        r matches Some((a, b)) ==> a <= b <= s@.len(),
{
    let ghost f = |i: int| uid_at(s@, i, attr@, prefix@);
    let n = s.len();
    let mut i: usize = 0;
    loop
        invariant
            i <= n,
            n == s@.len(),
            f == (|i: int| uid_at(s@, i, attr@, prefix@)),
            first_from(f, 0, n as int) == first_from(f, i as int, n as int),
        decreases n - i,
    {
        let r = uid_at_exec(s, i, attr, prefix);
        assert(first_from(f, i as int, n as int) == match f(i as int) {
            Some(t) => Some(t),
            None => first_from(f, i + 1, n as int),
        });
        if r.is_some() {
            return r;
        }
        if i == n {
            assert(first_from(f, i + 1, n as int) is None);
            return None;
        }
        i = i + 1;
    }
}

// ------------------------------------------------------------ fields

pub open spec fn span_text(s: Seq<char>, r: Option<(int, int)>) -> Option<Seq<char>> {
    match r {
        Some((a, b)) => Some(s.subrange(a, b)),
        None => None,
    }
}

pub open spec fn parse_opt(t: Option<Seq<char>>, max: nat) -> Option<nat> {
    match t {
        Some(x) => parse_unsigned(x, max),
        None => None,
    }
}

pub open spec fn nat16(o: Option<u16>) -> Option<nat> {
    match o {
        Some(n) => Some(n as nat),
        None => None,
    }
}

pub open spec fn nat32(o: Option<u32>) -> Option<nat> {
    match o {
        Some(n) => Some(n as nat),
        None => None,
    }
}

pub open spec fn nat64(o: Option<u64>) -> Option<nat> {
    match o {
        Some(n) => Some(n as nat),
        None => None,
    }
}

pub open spec fn text_opt(o: Option<String>) -> Option<Seq<char>> {
    match o {
        Some(s) => Some(s@),
        None => None,
    }
}

pub open spec fn texts(v: Seq<String>) -> Seq<Seq<char>> {
    v.map_values(|t: String| t@)
}

/// The title, or `Unknown`.
pub open spec fn nfo_title(s: Seq<char>) -> Seq<char> {
    match tag_text(s, "title"@) {
        Some(t) => t,
        None => "Unknown"@,
    }
}

/// The TMDB id: the `tmdbid` tag, or else a `uniqueid` of type `tmdb`.
pub open spec fn nfo_tmdb_id(s: Seq<char>) -> Option<nat> {
    match tag_text(s, "tmdbid"@) {
        Some(t) => parse_unsigned(t, 0xffff_ffff_ffff_ffff),
        None => parse_opt(
            span_text(s, first_from(|i: int| uid_at(s, i, "type=\"tmdb\""@, Seq::empty()), 0, s.len() as int)),
            0xffff_ffff_ffff_ffff,
        ),
    }
}

/// The IMDB id: the `imdbid` tag, or else a `uniqueid` of type `imdb`
/// holding `tt` and digits.
pub open spec fn nfo_imdb_id(s: Seq<char>) -> Option<Seq<char>> {
    match tag_text(s, "imdbid"@) {
        Some(t) => Some(t),
        None => span_text(s, first_from(|i: int| uid_at(s, i, "type=\"imdb\""@, "tt"@), 0, s.len() as int)),
    }
}

/// The collection name: `<set><name>…</name>` (the nested form), or else
/// a flat `<set>…</set>` without markup.
pub open spec fn nfo_collection_name(s: Seq<char>) -> Option<Seq<char>> {
    let nested = match first_from(|i: int| set_name_at(s, i), 0, s.len() as int) {
        Some((a, b)) => if trim(s.subrange(a, b)).len() > 0 {
            Some(trim(s.subrange(a, b)))
        } else {
            None
        },
        None => None,
    };
    match nested {
        Some(t) => Some(t),
        None => match tag_text(s, "set"@) {
            Some(t) => if !t.contains('<') && t.len() > 0 {
                Some(t)
            } else {
                None
            },
            None => None,
        },
    }
}

/// The size of the collection, from `<totalmovies>` inside `<set>`.
pub open spec fn nfo_collection_total(s: Seq<char>) -> Option<nat> {
    match span_text(s, first_from(|i: int| set_total_at(s, i), 0, s.len() as int)) {
        Some(d) => parse_unsigned(trim(d), 0xffff_ffff),
        None => None,
    }
}

/// The country, as the code it is stored under.
pub open spec fn nfo_country(s: Seq<char>) -> Option<Seq<char>> {
    match tag_text(s, "country"@) {
        Some(c) => Some(country_code(c)),
        None => None,
    }
}

/// An actor entry: the `<name>` inside it, or the entry itself.
pub open spec fn actor_name(a: Seq<char>) -> Seq<char> {
    match tag_text(a, "name"@) {
        Some(n) => n,
        None => a,
    }
}

pub open spec fn nfo_actors(s: Seq<char>) -> Seq<Seq<char>> {
    block_texts(s, "actor"@).map_values(|a: Seq<char>| actor_name(a))
}

/// The year of a TV show: the `year` tag, or else the first four bytes of
/// `premiered`.
pub open spec fn nfo_show_year(s: Seq<char>) -> Option<nat> {
    match tag_text(s, "year"@) {
        Some(y) => parse_unsigned(y, 0xffff),
        None => match tag_text(s, "premiered"@) {
            Some(p) => parse_opt(byte_prefix(p, 4), 0xffff),
            None => None,
        },
    }
}

/// A TV show's year can be read: when it comes from `premiered`, its first
/// four bytes end on a character boundary.
pub open spec fn show_year_readable(s: Seq<char>) -> bool {
    tag_text(s, "year"@) is Some || match tag_text(s, "premiered"@) {
        Some(p) => byte_prefix(p, 4) is Some,
        None => true,
    }
}

pub open spec fn or_default(n: Option<nat>, d: nat) -> nat {
    match n {
        Some(v) => v,
        None => d,
    }
}

fn tag_number(s: &Vec<char>, tag: &str, max: u64) -> (r: Option<u64>)
    requires
        max >= 9,
    ensures
        nat64(r) == parse_opt(tag_text(s@, tag@), max as nat),
{
    match tag_text_chars(s, tag) {
        Some(t) => {
            let tv = chars_of(t.as_str());
            parse_unsigned_chars(&tv, max)
        },
        None => None,
    }
}

fn opt_string(r: Option<(usize, usize)>, s: &Vec<char>) -> (t: Option<Vec<char>>)
    requires
        r matches Some((a, b)) ==> a <= b <= s@.len(),
    ensures
        match t {
            Some(v) => span_text(s@, span2(r)) == Some(v@),
            None => span_text(s@, span2(r)) is None,
        },
{
    match r {
        Some((a, b)) => Some(slice(s, a, b)),
        None => None,
    }
}

fn byte_prefix_exec(v: &Vec<char>, start: usize, n: i64) -> (r: Option<Vec<char>>)
    requires
        start <= v@.len(),
        -8 <= n <= 8,
    ensures
        match r {
            Some(p) => byte_prefix(v@.subrange(start as int, v@.len() as int), n as int) == Some(p@),
            None => byte_prefix(v@.subrange(start as int, v@.len() as int), n as int) is None,
        },
    decreases v@.len() - start,
{
    let ghost t = v@.subrange(start as int, v@.len() as int);
    if n == 0 {
        return Some(Vec::new());
    }
    if n < 0 || start == v.len() {
        return None;
    }
    let c = v[start];
    let u: i64 = if (c as u32) < 0x80 {
        1
    } else if (c as u32) < 0x800 {
        2
    } else if (c as u32) < 0x10000 {
        3
    } else {
        4
    };
    assert(t.drop_first() =~= v@.subrange(start + 1, v@.len() as int));
    match byte_prefix_exec(v, start + 1, n - u) {
        Some(rest) => {
            let mut out: Vec<char> = Vec::new();
            out.push(c);
            let mut rr = rest;
            out.append(&mut rr);
            assert(out@ =~= seq![t[0]] + rest@);
            Some(out)
        },
        None => None,
    }
}

/// The chars of the first four bytes of `premiered`, when they end on a
/// character boundary.
fn show_year_text(s: &Vec<char>) -> (r: Option<Vec<char>>)
    requires
        show_year_readable(s@),
    ensures
        match r {
            Some(v) => match tag_text(s@, "year"@) {
                Some(y) => y == v@,
                None => tag_text(s@, "premiered"@) matches Some(p) && byte_prefix(p, 4) == Some(v@),
            },
            None => tag_text(s@, "year"@) is None && tag_text(s@, "premiered"@) is None,
        },
{
    match tag_text_chars(s, "year") {
        Some(y) => Some(chars_of(y.as_str())),
        None => match tag_text_chars(s, "premiered") {
            Some(p) => {
                let pv = chars_of(p.as_str());
                assert(pv@.subrange(0, pv@.len() as int) =~= pv@);
                byte_prefix_exec(&pv, 0, 4)
            },
            None => None,
        },
    }
}

fn tmdb_id_exec(s: &Vec<char>) -> (r: Option<u64>)
    ensures
        nat64(r) == nfo_tmdb_id(s@),
{
    match tag_text_chars(s, "tmdbid") {
        Some(t) => {
            let tv = chars_of(t.as_str());
            parse_unsigned_chars(&tv, 0xffff_ffff_ffff_ffff)
        },
        None => {
            let attr = chars_of("type=\"tmdb\"");
            let prefix: Vec<char> = Vec::new();
            assert(prefix@ =~= Seq::<char>::empty());
            match opt_string(first_uid(s, &attr, &prefix), s) {
                Some(d) => parse_unsigned_chars(&d, 0xffff_ffff_ffff_ffff),
                None => None,
            }
        },
    }
}

fn imdb_id_exec(s: &Vec<char>) -> (r: Option<String>)
    ensures
        text_opt(r) == nfo_imdb_id(s@),
{
    match tag_text_chars(s, "imdbid") {
        Some(t) => Some(t),
        None => {
            let attr = chars_of("type=\"imdb\"");
            let prefix = chars_of("tt");
            match opt_string(first_uid(s, &attr, &prefix), s) {
                Some(d) => Some(string_of(&d)),
                None => None,
            }
        },
    }
}

fn has_char(v: &Vec<char>, c: char) -> (r: bool)
    ensures
        r == v@.contains(c),
{
    let mut i: usize = 0;
    while i < v.len()
        invariant
            i <= v@.len(),
            forall|k: int| 0 <= k < i ==> v@[k] != c,
        decreases v@.len() - i,
    {
        if v[i] == c {
            return true;
        }
        i = i + 1;
    }
    false
}

fn collection_name_exec(s: &Vec<char>) -> (r: Option<String>)
    ensures
        text_opt(r) == nfo_collection_name(s@),
{
    let nested: Option<Vec<char>> = match set_name_span(s) {
        Some((a, b)) => {
            let t = trim_chars(&slice(s, a, b));
            if t.len() > 0 {
                Some(t)
            } else {
                None
            }
        },
        None => None,
    };
    match nested {
        Some(t) => Some(string_of(&t)),
        None => match tag_text_chars(s, "set") {
            Some(t) => {
                let tv = chars_of(t.as_str());
                if !has_char(&tv, '<') && tv.len() > 0 {
                    Some(t)
                } else {
                    None
                }
            },
            None => None,
        },
    }
}

fn collection_total_exec(s: &Vec<char>) -> (r: Option<u32>)
    ensures
        nat32(r) == nfo_collection_total(s@),
{
    match set_total_span(s) {
        Some((a, b)) => {
            let d = trim_chars(&slice(s, a, b));
            match parse_unsigned_chars(&d, 0xffff_ffff) {
                Some(n) => Some(n as u32),
                None => None,
            }
        },
        None => None,
    }
}

fn country_exec(s: &Vec<char>) -> (r: Option<String>)
    ensures
        text_opt(r) == nfo_country(s@),
{
    match tag_text_chars(s, "country") {
        Some(c) => Some(country_name_to_code(c.as_str())),
        None => None,
    }
}

fn actors_exec(s: &Vec<char>) -> (r: Vec<String>)
    ensures
        texts(r@) == nfo_actors(s@),
{
    let entries = tag_texts_chars(s, "actor", true);
    let ghost es = texts(entries@);
    let mut out: Vec<String> = Vec::new();
    let mut i: usize = 0;
    while i < entries.len()
        invariant
            es == texts(entries@),
            es == block_texts(s@, "actor"@),
            i <= entries@.len(),
            texts(out@) == es.take(i as int).map_values(|a: Seq<char>| actor_name(a)),
        decreases entries@.len() - i,
    {
        let ev = chars_of(entries[i].as_str());
        let name = match tag_text_chars(&ev, "name") {
            Some(n) => n,
            None => entries[i].clone(),
        };
        let ghost before = out@;
        out.push(name);
        proof {
            assert(es[i as int] == entries@[i as int]@);
            assert(texts(out@) =~= texts(before).push(name@));
            assert(es.take(i + 1).map_values(|a: Seq<char>| actor_name(a)) =~= es.take(i as int).map_values(
                |a: Seq<char>| actor_name(a),
            ).push(actor_name(es[i as int])));
        }
        i = i + 1;
    }
    assert(es.take(entries@.len() as int) =~= es);
    out
}

fn tags_exec(s: &Vec<char>, tag: &str) -> (r: Vec<String>)
    ensures
        texts(r@) == tag_texts(s@, tag@),
{
    tag_texts_chars(s, tag, false)
}

fn opt_copy(o: &Option<String>) -> (r: Option<String>)
    ensures
        r == *o,
{
    match o {
        Some(t) => Some(t.clone()),
        None => None,
    }
}

/// A movie entry from the text of its movie.nfo; `rating` (hundredths of
/// a point) is read by the caller, the id and the time are given.
pub fn movie_from_nfo(
    content: &str,
    disk_label: &str,
    disk_uuid: &Option<String>,
    relative_path: &str,
    size_bytes: u64,
    rating: Option<u32>,
    id: String,
    indexed_at: String,
) -> (r: MovieEntry)
    ensures
        r.id == id,
        movie_read(r, content@, disk_label@, *disk_uuid, relative_path@, size_bytes, rating),
        r.indexed_at == indexed_at,
{
    let s = chars_of(content);
    let title = match tag_text_chars(&s, "title") {
        Some(t) => t,
        None => "Unknown".to_string(),
    };
    let year: Option<u16> = match tag_number(&s, "year", 0xffff) {
        Some(y) => Some(y as u16),
        None => None,
    };
    let collection_id = tag_number(&s, "tmdbcollectionid", 0xffff_ffff_ffff_ffff);
    let runtime: Option<u32> = match tag_number(&s, "runtime", 0xffff_ffff) {
        Some(n) => Some(n as u32),
        None => None,
    };
    MovieEntry {
        id,
        disk: disk_label.to_string(),
        disk_uuid: opt_copy(disk_uuid),
        relative_path: relative_path.to_string(),
        title,
        original_title: tag_text_chars(&s, "originaltitle"),
        year,
        tmdb_id: tmdb_id_exec(&s),
        imdb_id: imdb_id_exec(&s),
        collection_id,
        collection_name: collection_name_exec(&s),
        collection_total_movies: collection_total_exec(&s),
        country: country_exec(&s),
        genres: tags_exec(&s, "genre"),
        actors: actors_exec(&s),
        directors: tags_exec(&s, "director"),
        runtime,
        rating,
        size_bytes,
        resolution: tag_text_chars(&s, "resolution"),
        indexed_at,
    }
}

/// A TV show entry from the text of its tvshow.nfo; the id and the time
/// are given. Seasons default to 1 and episodes to 0.
pub fn tvshow_from_nfo(
    content: &str,
    disk_label: &str,
    disk_uuid: &Option<String>,
    relative_path: &str,
    size_bytes: u64,
    id: String,
    indexed_at: String,
) -> (r: TvShowEntry)
    requires
        show_year_readable(content@),
    ensures
        r.id == id,
        show_read(r, content@, disk_label@, *disk_uuid, relative_path@, size_bytes),
        r.indexed_at == indexed_at,
{
    let s = chars_of(content);
    let title = match tag_text_chars(&s, "title") {
        Some(t) => t,
        None => "Unknown".to_string(),
    };
    let year: Option<u16> = match show_year_text(&s) {
        Some(t) => match parse_unsigned_chars(&t, 0xffff) {
            Some(y) => Some(y as u16),
            None => None,
        },
        None => None,
    };
    let seasons: u32 = match tag_number(&s, "season", 0xffff_ffff) {
        Some(n) => n as u32,
        None => 1,
    };
    let episodes: u32 = match tag_number(&s, "episode", 0xffff_ffff) {
        Some(n) => n as u32,
        None => 0,
    };
    TvShowEntry {
        id,
        disk: disk_label.to_string(),
        disk_uuid: opt_copy(disk_uuid),
        relative_path: relative_path.to_string(),
        title,
        original_title: tag_text_chars(&s, "originaltitle"),
        year,
        tmdb_id: tmdb_id_exec(&s),
        imdb_id: imdb_id_exec(&s),
        country: country_exec(&s),
        genres: tags_exec(&s, "genre"),
        actors: actors_exec(&s),
        seasons,
        episodes,
        size_bytes,
        indexed_at,
    }
}

/// A TV show's year can be read (see `show_year_readable`).
pub fn tvshow_nfo_readable(content: &str) -> (r: bool)
    ensures
        r == show_year_readable(content@),
{
    let s = chars_of(content);
    match tag_text_chars(&s, "year") {
        Some(_) => true,
        None => match tag_text_chars(&s, "premiered") {
            Some(p) => {
                let pv = chars_of(p.as_str());
                assert(pv@.subrange(0, pv@.len() as int) =~= pv@);
                byte_prefix_exec(&pv, 0, 4).is_some()
            },
            None => true,
        },
    }
}

/// A movie entry holds what a movie NFO file says (its id and time stamp
/// aside), with the disk, path, size and rating it was read with.
pub open spec fn movie_read(
    m: MovieEntry,
    content: Seq<char>,
    disk_label: Seq<char>,
    disk_uuid: Option<String>,
    relative_path: Seq<char>,
    size_bytes: u64,
    rating: Option<u32>,
) -> bool {
    &&& m.title@ == nfo_title(content)
    &&& m.disk@ == disk_label
    &&& m.disk_uuid == disk_uuid
    &&& m.relative_path@ == relative_path
    &&& text_opt(m.original_title) == tag_text(content, "originaltitle"@)
    &&& nat16(m.year) == parse_opt(tag_text(content, "year"@), 0xffff)
    &&& nat64(m.tmdb_id) == nfo_tmdb_id(content)
    &&& text_opt(m.imdb_id) == nfo_imdb_id(content)
    &&& nat64(m.collection_id) == parse_opt(tag_text(content, "tmdbcollectionid"@), 0xffff_ffff_ffff_ffff)
    &&& text_opt(m.collection_name) == nfo_collection_name(content)
    &&& nat32(m.collection_total_movies) == nfo_collection_total(content)
    &&& text_opt(m.country) == nfo_country(content)
    &&& texts(m.genres@) == tag_texts(content, "genre"@)
    &&& texts(m.actors@) == nfo_actors(content)
    &&& texts(m.directors@) == tag_texts(content, "director"@)
    &&& nat32(m.runtime) == parse_opt(tag_text(content, "runtime"@), 0xffff_ffff)
    &&& m.rating == rating
    &&& m.size_bytes == size_bytes
    &&& text_opt(m.resolution) == tag_text(content, "resolution"@)
}

/// A TV show entry holds what a TV show NFO file says (its id and time
/// stamp aside), with the disk, path and size it was read with.
pub open spec fn show_read(
    t: TvShowEntry,
    content: Seq<char>,
    disk_label: Seq<char>,
    disk_uuid: Option<String>,
    relative_path: Seq<char>,
    size_bytes: u64,
) -> bool {
    &&& t.title@ == nfo_title(content)
    &&& t.disk@ == disk_label
    &&& t.disk_uuid == disk_uuid
    &&& t.relative_path@ == relative_path
    &&& text_opt(t.original_title) == tag_text(content, "originaltitle"@)
    &&& nat16(t.year) == nfo_show_year(content)
    &&& nat64(t.tmdb_id) == nfo_tmdb_id(content)
    &&& text_opt(t.imdb_id) == nfo_imdb_id(content)
    &&& text_opt(t.country) == nfo_country(content)
    &&& texts(t.genres@) == tag_texts(content, "genre"@)
    &&& texts(t.actors@) == nfo_actors(content)
    &&& t.seasons == or_default(parse_opt(tag_text(content, "season"@), 0xffff_ffff), 1)
    &&& t.episodes == or_default(parse_opt(tag_text(content, "episode"@), 0xffff_ffff), 0)
    &&& t.size_bytes == size_bytes
}

/// Parse movie NFO content into an entry with a fresh id, stamped now. The
/// read fails only when the system gives no random bytes for the id or its
/// clock cannot be read.
pub fn parse_movie_nfo(
    content: &str,
    disk_label: &str,
    disk_uuid: &Option<String>,
    relative_path: &str,
    size_bytes: u64,
    rating: Option<u32>,
) -> (r: Result<MovieEntry, Error>)
    ensures
        r matches Ok(m) ==> {
            &&& movie_read(m, content@, disk_label@, *disk_uuid, relative_path@, size_bytes, rating)
            &&& exists|b: Seq<u8>| b.len() == 16 && m.id@ == #[trigger] uuid_v4_text(b)
            &&& exists|t: UtcTime| #[trigger] utc_time_valid(t) && m.indexed_at@ == rfc3339_text(t)
        },
        r matches Err(e) ==> e matches Error::Other(msg) && (msg@ == "no random bytes for an id"@ || msg@ == "system time before Unix epoch"@),
{
    let id = match new_uuid() {
        Some(id) => id,
        None => return Err(Error::Other("no random bytes for an id".to_string())),
    };
    let at = match now_rfc3339() {
        Some(at) => at,
        None => return Err(Error::Other("system time before Unix epoch".to_string())),
    };
    Ok(movie_from_nfo(content, disk_label, disk_uuid, relative_path, size_bytes, rating, id, at))
}

/// Parse TV show NFO content into an entry with a fresh id, stamped now. The
/// read fails only when the system gives no random bytes for the id or its
/// clock cannot be read.
pub fn parse_tvshow_nfo(
    content: &str,
    disk_label: &str,
    disk_uuid: &Option<String>,
    relative_path: &str,
    size_bytes: u64,
) -> (r: Result<TvShowEntry, Error>)
    requires
        show_year_readable(content@),
    ensures
        r matches Ok(t) ==> {
            &&& show_read(t, content@, disk_label@, *disk_uuid, relative_path@, size_bytes)
            &&& exists|b: Seq<u8>| b.len() == 16 && t.id@ == #[trigger] uuid_v4_text(b)
            &&& exists|u: UtcTime| #[trigger] utc_time_valid(u) && t.indexed_at@ == rfc3339_text(u)
        },
        r matches Err(e) ==> e matches Error::Other(msg) && (msg@ == "no random bytes for an id"@ || msg@ == "system time before Unix epoch"@),
{
    let id = match new_uuid() {
        Some(id) => id,
        None => return Err(Error::Other("no random bytes for an id".to_string())),
    };
    let at = match now_rfc3339() {
        Some(at) => at,
        None => return Err(Error::Other("system time before Unix epoch".to_string())),
    };
    Ok(tvshow_from_nfo(content, disk_label, disk_uuid, relative_path, size_bytes, id, at))
}

} // verus!
