//! Filename and directory-name parsing.

use vstd::prelude::*;
use crate::engine::clock::present_year;
use crate::engine::pattern::{
    chinese_episode_first, chinese_episode_search, digit_run, episode_word_first, episode_word_search, digit_run_exec, exx_first,
    exx_search, first_index_from, first_index_from_exec, ids_at, ids_at_exec,
    is_organized_movie_name, is_organized_movie_name_exec, is_organized_tv_name,
    is_organized_tv_name_exec, chinese_season_first, chinese_season_search, season_number_first,
    season_number_search, s_number_first, s_number_search, leading_number_exec, leading_number_span, season_episode_first,
    season_episode_search, span_u16, span_u16_exec, span_u64, span_u64_exec, sxe_first,
    sxe_search, tv_middle_at,
};
use crate::engine::prompt_text::{
    prompt_for, push_prompt_head, push_prompt_middle, push_prompt_tail,
};
use crate::error::Error;
use crate::models::media::MediaType;
use crate::utils::fs::{last_index_of, rfind_char};
use crate::utils::text::{
    chars_of, contains, contains_seq, is_digit, matches_at, occurs_at, parse_unsigned,
    parse_unsigned_chars, push_all, push_str, slice, str_lowercase, string_of, to_lower, trim,
    trim_chars,
};

verus! {

/// The part of a filename before its last `.` (empty when there is none).
pub open spec fn filename_stem(f: Seq<char>) -> Seq<char> {
    let k = last_index_of(f, '.');
    if k >= 0 {
        f.subrange(0, k)
    } else {
        Seq::<char>::empty()
    }
}

/// Both captured numbers of a two-group match, when both parse as `u16`.
pub open spec fn numbers_of(s: Seq<char>, m: Option<(int, int, int, int)>) -> Option<(nat, nat)> {
    match m {
        Some((a, b, c, d)) => match (span_u16(s, a, b), span_u16(s, c, d)) {
            (Some(x), Some(y)) => Some((x, y)),
            _ => None,
        },
        None => None,
    }
}

/// The captured number of a one-group match, when it parses as `u16`.
pub open spec fn number_of(s: Seq<char>, m: Option<(int, int)>) -> Option<nat> {
    match m {
        Some((a, b)) => span_u16(s, a, b),
        None => None,
    }
}

/// A leading episode number of 1 to 3 digits, between 1 and 999.
pub open spec fn leading_episode(t: Seq<char>) -> Option<nat> {
    let k = leading_number_span(t);
    if k >= 1 {
        match span_u16(t, 0, k as int) {
            Some(n) => if 1 <= n <= 999 {
                Some(n)
            } else {
                None
            },
            None => None,
        }
    } else {
        None
    }
}

/// Season and episode read from a filename, trying in order: `S01E02`,
/// `Season 1 ... Episode 2`, `E02`/`EP02`, `Episode 2`, `第02集`, and a
/// leading number. The last four imply season 1.
pub open spec fn episode_from_filename(f: Seq<char>) -> (Option<nat>, Option<nat>) {
    episode_from_stem(filename_stem(f), str_lowercase(filename_stem(f)))
}

/// Season and episode read from a filename's stem `name`, given the
/// stem in lower case (`lower`).
pub open spec fn episode_from_stem(name: Seq<char>, lower: Seq<char>) -> (Option<nat>, Option<nat>) {
    let p1 = numbers_of(lower, sxe_first(lower));
    let p2 = numbers_of(lower, season_episode_first(lower));
    let p3 = number_of(lower, exx_first(lower));
    let pw = number_of(lower, episode_word_first(lower));
    let p4 = number_of(name, chinese_episode_first(name));
    let p5 = leading_episode(trim(name));
    if let Some((a, b)) = p1 {
        (Some(a), Some(b))
    } else if let Some((a, b)) = p2 {
        (Some(a), Some(b))
    } else if p3 is Some {
        (Some(1), Some(p3->0))
    } else if pw is Some {
        (Some(1), Some(pw->0))
    } else if p4 is Some {
        (Some(1), Some(p4->0))
    } else if p5 is Some {
        (Some(1), Some(p5->0))
    } else {
        (None, None)
    }
}

pub open spec fn opt_nat(o: Option<u16>) -> Option<nat> {
    match o {
        Some(n) => Some(n as nat),
        None => None,
    }
}

fn numbers_exec(s: &Vec<char>, m: Option<(usize, usize, usize, usize)>) -> (r: Option<(u16, u16)>)
    requires
        m matches Some((a, b, c, d)) ==> a <= b <= s.len() && c <= d <= s.len(),
    ensures
        match r {
            Some((x, y)) => numbers_of(
                s@,
                crate::engine::pattern::span4(m),
            ) == Some((x as nat, y as nat)),
            None => numbers_of(s@, crate::engine::pattern::span4(m)) is None,
        },
{
    match m {
        Some((a, b, c, d)) => {
            let x = span_u16_exec(s, a, b);
            let y = span_u16_exec(s, c, d);
            match (x, y) {
                (Some(x), Some(y)) => Some((x, y)),
                _ => None,
            }
        },
        None => None,
    }
}

fn number_exec(s: &Vec<char>, m: Option<(usize, usize)>) -> (r: Option<u16>)
    requires
        m matches Some((a, b)) ==> a <= b <= s.len(),
    ensures
        opt_nat(r) == number_of(s@, crate::engine::pattern::span2(m)),
{
    match m {
        Some((a, b)) => span_u16_exec(s, a, b),
        None => None,
    }
}

fn stem_chars(f: &Vec<char>) -> (r: Vec<char>)
    ensures
        r@ == filename_stem(f@),
{
    match rfind_char(f, '.') {
        Some(k) => slice(f, 0, k),
        None => Vec::new(),
    }
}

/// Extract season and episode numbers from a filename.
pub fn extract_episode_from_filename(filename: &str) -> (r: (Option<u16>, Option<u16>))
    ensures
        (opt_nat(r.0), opt_nat(r.1)) == episode_from_filename(filename@),
{
    let f = chars_of(filename);
    let name = stem_chars(&f);
    let lower = to_lower(&name);
    episode_from_stem_chars(&name, &lower)
}

/// Season and episode read from a filename's stem, given the stem and its
/// lower-case form.
pub fn episode_from_stem_chars(name: &Vec<char>, lower: &Vec<char>) -> (r: (Option<u16>, Option<u16>))
    ensures
        (opt_nat(r.0), opt_nat(r.1)) == episode_from_stem(name@, lower@),
{
    if let Some((s, e)) = numbers_exec(lower, sxe_search(lower)) {
        return (Some(s), Some(e));
    }
    if let Some((s, e)) = numbers_exec(lower, season_episode_search(lower)) {
        return (Some(s), Some(e));
    }
    if let Some(e) = number_exec(lower, exx_search(lower)) {
        return (Some(1), Some(e));
    }
    if let Some(e) = number_exec(lower, episode_word_search(lower)) {
        return (Some(1), Some(e));
    }
    if let Some(e) = number_exec(name, chinese_episode_search(name)) {
        return (Some(1), Some(e));
    }
    let t = trim_chars(name);
    let k = leading_number_exec(&t);
    if k >= 1 {
        if let Some(n) = span_u16_exec(&t, 0, k) {
            if 1 <= n && n <= 999 {
                return (Some(1), Some(n));
            }
        }
    }
    (None, None)
}

} // verus!

verus! {

/// Information extracted from an organized TV show filename.
#[derive(Debug, Clone)]
pub struct OrganizedTvShowInfo {
    pub title: String,
    pub season: u16,
    pub episode: u16,
    pub episode_name: String,
}

/// Information extracted from an organized movie filename.
#[derive(Debug, Clone)]
pub struct OrganizedMovieInfo {
    pub original_title: Option<String>,
    pub title: Option<String>,
    pub year: u16,
    pub imdb_id: Option<String>,
    pub tmdb_id: u64,
}

/// Information extracted from an organized TV show folder name.
#[derive(Debug, Clone)]
pub struct OrganizedTvShowFolderInfo {
    pub title: String,
    pub year: Option<u16>,
    pub imdb_id: Option<String>,
    pub tmdb_id: u64,
}

pub open spec fn opt_view(o: Option<String>) -> Option<Seq<char>> {
    match o {
        Some(s) => Some(s@),
        None => None,
    }
}

/// Check if a filename matches the organized output format
/// (`[Title]-S01E01-[Episode]-...` or `[Title](Year)-tt..-tmdb..-...`).
pub fn is_organized_filename(filename: &str) -> (r: bool)
    ensures
        r == (is_organized_tv_name(filename@) || is_organized_movie_name(filename@, false)),
{
    let s = chars_of(filename);
    if is_organized_tv_name_exec(&s) {
        return true;
    }
    is_organized_movie_name_exec(&s, false)
}

/// Check if a folder name matches the organized TV show folder format
/// (`[Title](Year)-ttIMDB-tmdbID` or `[Title](Year)-tmdbID`).
pub fn is_organized_tvshow_folder(dirname: &str) -> (r: bool)
    ensures
        r == is_organized_movie_name(dirname@, true),
{
    let s = chars_of(dirname);
    is_organized_movie_name_exec(&s, true)
}

/// Fields of `^\[([^\]]+)\]-S(\d{2})E(\d{2,3})-\[([^\]]+)\]-`: title, season, episode, episode name.
pub open spec fn organized_tv_fields(s: Seq<char>) -> Option<(Seq<char>, nat, nat, Seq<char>)> {
    let j1 = first_index_from(s, ']', 1);
    if s.len() > 0 && s[0] == '[' && j1 >= 2 && tv_middle_at(s, j1) is Some {
        let m = tv_middle_at(s, j1)->0;
        let j2 = first_index_from(s, ']', m);
        if j2 >= m + 1 && occurs_at(s, "]-"@, j2) {
            match (span_u16(s, j1 + 3, j1 + 5), span_u16(s, j1 + 6, m - 2)) {
                (Some(season), Some(episode)) => Some(
                    (s.subrange(1, j1), season, episode, s.subrange(m, j2)),
                ),
                _ => None,
            }
        } else {
            None
        }
    } else {
        None
    }
}

/// Parse an organized TV show filename.
pub fn parse_organized_tvshow_filename(filename: &str) -> (r: Option<OrganizedTvShowInfo>)
    ensures
        match r {
            Some(info) => organized_tv_fields(filename@) == Some(
                (info.title@, info.season as nat, info.episode as nat, info.episode_name@),
            ),
            None => organized_tv_fields(filename@) is None,
        },
{
    let s = chars_of(filename);
    if s.len() == 0 || s[0] != '[' {
        return None;
    }
    let j1 = first_index_from_exec(&s, ']', 1);
    if j1 < 2 {
        return None;
    }
    let w1 = chars_of("]-S");
    let w2 = chars_of("-[");
    let w3 = chars_of("]-");
    proof {
        reveal_strlit("]-S");
        reveal_strlit("-[");
        reveal_strlit("]-");
    }
    if !matches_at(&s, &w1, j1) {
        return None;
    }
    assert(j1 + 3 <= s.len());
    if digit_run_exec(&s, j1 + 3, 2) != 2 {
        return None;
    }
    if !(j1 + 5 < s.len() && s[j1 + 5] == 'E') {
        return None;
    }
    let r = digit_run_exec(&s, j1 + 6, 3);
    if r < 2 {
        return None;
    }
    if !matches_at(&s, &w2, j1 + 6 + r) {
        return None;
    }
    let m = j1 + 8 + r;
    assert(tv_middle_at(s@, j1 as int) == Some(m as int));
    let j2 = first_index_from_exec(&s, ']', m);
    if j2 <= m || !matches_at(&s, &w3, j2) {
        return None;
    }
    let season = span_u16_exec(&s, j1 + 3, j1 + 5);
    let episode = span_u16_exec(&s, j1 + 6, m - 2);
    match (season, episode) {
        (Some(season), Some(episode)) => {
            let title = slice(&s, 1, j1);
            let name = slice(&s, m, j2);
            Some(
                OrganizedTvShowInfo {
                    title: string_of(&title),
                    season,
                    episode,
                    episode_name: string_of(&name),
                },
            )
        },
        _ => None,
    }
}

/// `"tt" + digits` for a captured IMDB span.
pub open spec fn imdb_of(s: Seq<char>, tt: Option<(int, int)>) -> Option<Seq<char>> {
    match tt {
        Some((a, b)) => Some("tt"@ + s.subrange(a, b)),
        None => None,
    }
}

/// Fields read after the title part, when the year and ids follow at `j`:
/// `](YYYY)-(?:tt(\d+))?-?tmdb(\d+)-` gives year, imdb id and tmdb id.
pub open spec fn movie_tail_fields(s: Seq<char>, j: int) -> Option<
    Option<(nat, Option<Seq<char>>, nat)>,
> {
    if occurs_at(s, "]("@, j) && digit_run(s, j + 2, 4) == 4 && occurs_at(s, ")-"@, j + 6) && ids_at(
        s,
        j + 8,
        false,
    ) is Some {
        let (tt, (c, d)) = ids_at(s, j + 8, false)->0;
        match (span_u16(s, j + 2, j + 6), span_u64(s, c, d)) {
            (Some(year), Some(tmdb)) => Some(Some((year, imdb_of(s, tt), tmdb))),
            _ => Some(None),
        }
    } else {
        None
    }
}

/// Fields of an organized movie filename: original title, title, year, imdb id, tmdb id.
/// The two-title form `[A][B](YYYY)-...` is tried first, then `[A](YYYY)-...`.
pub open spec fn organized_movie_fields(s: Seq<char>) -> Option<
    (Option<Seq<char>>, Option<Seq<char>>, nat, Option<Seq<char>>, nat),
> {
    let j1 = first_index_from(s, ']', 1);
    let j2 = first_index_from(s, ']', j1 + 2);
    if s.len() > 0 && s[0] == '[' && j1 >= 2 {
        let two = j1 + 1 < s.len() && s[j1 + 1] == '[' && j2 >= j1 + 3 && movie_tail_fields(s, j2)
            is Some;
        if two {
            match movie_tail_fields(s, j2)->0 {
                Some((year, imdb, tmdb)) => Some(
                    (Some(s.subrange(1, j1)), Some(s.subrange(j1 + 2, j2)), year, imdb, tmdb),
                ),
                None => None,
            }
        } else {
            match movie_tail_fields(s, j1) {
                Some(Some((year, imdb, tmdb))) => Some(
                    (Some(s.subrange(1, j1)), None, year, imdb, tmdb),
                ),
                _ => None,
            }
        }
    } else {
        None
    }
}

fn imdb_string(s: &Vec<char>, a: usize, b: usize) -> (r: String)
    requires
        a <= b <= s.len(),
    ensures
        r@ == "tt"@ + s@.subrange(a as int, b as int),
{
    let mut v = chars_of("tt");
    let d = slice(s, a, b);
    push_all(&mut v, &d);
    string_of(&v)
}

fn movie_tail_exec(s: &Vec<char>, j: usize) -> (r: Option<Option<(u16, Option<String>, u64)>>)
    ensures
        match r {
            Some(Some((y, imdb, t))) => movie_tail_fields(s@, j as int) == Some(
                Some((y as nat, opt_view(imdb), t as nat)),
            ),
            Some(None) => movie_tail_fields(s@, j as int) == Some(
                None::<(nat, Option<Seq<char>>, nat)>,
            ),
            None => movie_tail_fields(s@, j as int) is None,
        },
{
    let w1 = chars_of("](");
    let w2 = chars_of(")-");
    proof {
        reveal_strlit("](");
        reveal_strlit(")-");
    }
    if !matches_at(s, &w1, j) {
        return None;
    }
    assert(j + 2 <= s.len());
    if digit_run_exec(s, j + 2, 4) != 4 {
        return None;
    }
    if !matches_at(s, &w2, j + 6) {
        return None;
    }
    match ids_at_exec(s, j + 8, false) {
        Some((tt, (c, d))) => {
            let year = span_u16_exec(s, j + 2, j + 6);
            let tmdb = span_u64_exec(s, c, d);
            match (year, tmdb) {
                (Some(y), Some(t)) => {
                    let imdb = match tt {
                        Some((a, b)) => Some(imdb_string(s, a, b)),
                        None => None,
                    };
                    Some(Some((y, imdb, t)))
                },
                _ => Some(None),
            }
        },
        None => None,
    }
}

/// Parse an organized movie filename.
pub fn parse_organized_movie_filename(filename: &str) -> (r: Option<OrganizedMovieInfo>)
    ensures
        match r {
            Some(info) => organized_movie_fields(filename@) == Some(
                (
                    opt_view(info.original_title),
                    opt_view(info.title),
                    info.year as nat,
                    opt_view(info.imdb_id),
                    info.tmdb_id as nat,
                ),
            ),
            None => organized_movie_fields(filename@) is None,
        },
{
    let s = chars_of(filename);
    if s.len() == 0 || s[0] != '[' {
        return None;
    }
    let j1 = first_index_from_exec(&s, ']', 1);
    if j1 < 2 {
        return None;
    }
    if j1 < s.len() - 1 && s[j1 + 1] == '[' {
        let j2 = first_index_from_exec(&s, ']', j1 + 2);
        if j2 - j1 >= 3 {
            match movie_tail_exec(&s, j2) {
                Some(Some((year, imdb, tmdb))) => {
                    let a = slice(&s, 1, j1);
                    let b = slice(&s, j1 + 2, j2);
                    return Some(
                        OrganizedMovieInfo {
                            original_title: Some(string_of(&a)),
                            title: Some(string_of(&b)),
                            year,
                            imdb_id: imdb,
                            tmdb_id: tmdb,
                        },
                    );
                },
                Some(None) => {
                    return None;
                },
                None => {},
            }
        }
    }
    match movie_tail_exec(&s, j1) {
        Some(Some((year, imdb, tmdb))) => {
            let a = slice(&s, 1, j1);
            Some(
                OrganizedMovieInfo {
                    original_title: Some(string_of(&a)),
                    title: None,
                    year,
                    imdb_id: imdb,
                    tmdb_id: tmdb,
                },
            )
        },
        _ => None,
    }
}

} // verus!

verus! {

/// Fields of an organized TV show folder name: title, year, imdb id, tmdb id.
/// `[T](YYYY)-ttN-tmdbM` is tried first, then `[T](YYYY)-tmdbM`; the name ends with the tmdb id.
pub open spec fn organized_folder_fields(s: Seq<char>) -> Option<
    (Seq<char>, Option<nat>, Option<Seq<char>>, nat),
> {
    let j1 = first_index_from(s, ']', 1);
    if s.len() > 0 && s[0] == '[' && j1 >= 2 && occurs_at(s, "]("@, j1) && digit_run(s, j1 + 2, 4)
        == 4 {
        let p = j1 + 6;
        let title = s.subrange(1, j1);
        let year = span_u16(s, j1 + 2, j1 + 6);
        let r1 = digit_run(s, p + 4, s.len());
        let q = p + 4 + r1;
        let r2 = digit_run(s, q + 5, s.len());
        let r3 = digit_run(s, p + 6, s.len());
        if occurs_at(s, ")-tt"@, p) && r1 >= 1 && occurs_at(s, "-tmdb"@, q) && r2 >= 1 && q + 5 + r2
            == s.len() {
            match span_u64(s, q + 5, s.len() as int) {
                Some(t) => Some((title, year, Some("tt"@ + s.subrange(p + 4, q)), t)),
                None => None,
            }
        } else if occurs_at(s, ")-tmdb"@, p) && r3 >= 1 && p + 6 + r3 == s.len() {
            match span_u64(s, p + 6, s.len() as int) {
                Some(t) => Some((title, year, None, t)),
                None => None,
            }
        } else {
            None
        }
    } else {
        None
    }
}

/// Parse an organized TV show folder name.
pub fn parse_organized_tvshow_folder(dirname: &str) -> (r: Option<OrganizedTvShowFolderInfo>)
    ensures
        match r {
            Some(info) => organized_folder_fields(dirname@) == Some(
                (info.title@, opt_nat(info.year), opt_view(info.imdb_id), info.tmdb_id as nat),
            ),
            None => organized_folder_fields(dirname@) is None,
        },
{
    let s = chars_of(dirname);
    if s.len() == 0 || s[0] != '[' {
        return None;
    }
    let j1 = first_index_from_exec(&s, ']', 1);
    if j1 < 2 {
        return None;
    }
    let w1 = chars_of("](");
    let w2 = chars_of(")-tt");
    let w3 = chars_of("-tmdb");
    let w4 = chars_of(")-tmdb");
    proof {
        reveal_strlit("](");
        reveal_strlit(")-tt");
        reveal_strlit("-tmdb");
        reveal_strlit(")-tmdb");
    }
    if !matches_at(&s, &w1, j1) {
        return None;
    }
    assert(j1 + 2 <= s.len());
    if digit_run_exec(&s, j1 + 2, 4) != 4 {
        return None;
    }
    let p = j1 + 6;
    let title_chars = slice(&s, 1, j1);
    let year = span_u16_exec(&s, j1 + 2, j1 + 6);
    if matches_at(&s, &w2, p) {
        assert(p + 4 <= s.len());
        let r1 = digit_run_exec(&s, p + 4, s.len());
        if r1 >= 1 {
            let q = p + 4 + r1;
            if matches_at(&s, &w3, q) {
                assert(q + 5 <= s.len());
                let r2 = digit_run_exec(&s, q + 5, s.len());
                if r2 >= 1 && q + 5 + r2 == s.len() {
                    return match span_u64_exec(&s, q + 5, s.len()) {
                        Some(t) => Some(
                            OrganizedTvShowFolderInfo {
                                title: string_of(&title_chars),
                                year,
                                imdb_id: Some(imdb_string(&s, p + 4, q)),
                                tmdb_id: t,
                            },
                        ),
                        None => None,
                    };
                }
            }
        }
    }
    if matches_at(&s, &w4, p) {
        assert(p + 6 <= s.len());
        let r3 = digit_run_exec(&s, p + 6, s.len());
        if r3 >= 1 && p + 6 + r3 == s.len() {
            return match span_u64_exec(&s, p + 6, s.len()) {
                Some(t) => Some(
                    OrganizedTvShowFolderInfo {
                        title: string_of(&title_chars),
                        year,
                        imdb_id: None,
                        tmdb_id: t,
                    },
                ),
                None => None,
            };
        }
    }
    None
}

} // verus!

verus! {

/// Chinese numerals for seasons 1 to 15, in order.
pub open spec fn chinese_numerals() -> Seq<Seq<char>> {
    seq![
        "一"@,
        "二"@,
        "三"@,
        "四"@,
        "五"@,
        "六"@,
        "七"@,
        "八"@,
        "九"@,
        "十"@,
        "十一"@,
        "十二"@,
        "十三"@,
        "十四"@,
        "十五"@,
    ]
}

/// The first numeral, from index `k` on, such that `第X季` or `第X部` occurs in `name`.
pub open spec fn numeral_season_from(name: Seq<char>, k: int) -> Option<nat>
    decreases 15 - k,
{
    if k < 0 || k >= 15 {
        None
    } else if contains_seq(name, "第"@ + chinese_numerals()[k] + "季"@) || contains_seq(
        name,
        "第"@ + chinese_numerals()[k] + "部"@,
    ) {
        Some((k + 1) as nat)
    } else {
        numeral_season_from(name, k + 1)
    }
}

/// Season number of a directory name: `第X季`/`第X部` with a Chinese numeral,
/// then `第N季`, then `Season N`, then a separated `SN`.
pub open spec fn season_from_dirname(dirname: Seq<char>) -> Option<nat> {
    let name = trim(dirname);
    match numeral_season_from(name, 0) {
        Some(n) => Some(n),
        None => match number_of(name, chinese_season_first(name)) {
            Some(n) => Some(n),
            None => match number_of(name, season_number_first(name)) {
                Some(n) => Some(n),
                None => number_of(name, s_number_first(name)),
            },
        },
    }
}

fn season_marker(numeral: &str, suffix: &str) -> (r: Vec<char>)
    ensures
        r@ == "第"@ + numeral@ + suffix@,
{
    let mut v = chars_of("第");
    push_str(&mut v, numeral);
    push_str(&mut v, suffix);
    v
}

/// Extract the season number from a directory name.
pub fn extract_season_from_dirname(dirname: &str) -> (r: Option<u16>)
    ensures
        opt_nat(r) == season_from_dirname(dirname@),
{
    let d = chars_of(dirname);
    let name = trim_chars(&d);
    let numerals: [&str; 15] = [
        "一",
        "二",
        "三",
        "四",
        "五",
        "六",
        "七",
        "八",
        "九",
        "十",
        "十一",
        "十二",
        "十三",
        "十四",
        "十五",
    ];
    let ghost list = chinese_numerals();
    assert(numerals@.map_values(|s: &str| s@) =~= list);
    let mut k: usize = 0;
    while k < 15
        invariant
            k <= 15,
            name@ == trim(dirname@),
            list == chinese_numerals(),
            numerals@.map_values(|s: &str| s@) == list,
            numeral_season_from(name@, 0) == numeral_season_from(name@, k as int),
        decreases 15 - k,
    {
        assert(list[k as int] == numerals@[k as int]@);
        let season_pat = season_marker(numerals[k], "季");
        let part_pat = season_marker(numerals[k], "部");
        if contains(&name, &season_pat) || contains(&name, &part_pat) {
            assert(season_pat@ == "第"@ + list[k as int] + "季"@);
            assert(part_pat@ == "第"@ + list[k as int] + "部"@);
            assert(numeral_season_from(name@, k as int) == Some((k + 1) as nat));
            return Some((k + 1) as u16);
        }
        k = k + 1;
    }
    if let Some(n) = number_exec(&name, chinese_season_search(&name)) {
        return Some(n);
    }
    if let Some(n) = number_exec(&name, season_number_search(&name)) {
        return Some(n);
    }
    number_exec(&name, s_number_search(&name))
}

} // verus!

verus! {

/// Parsed filename information. `confidence` is in thousandths (0 to 1000).
#[derive(Debug, Clone)]
pub struct ParsedFilename {
    /// Original title (usually English).
    pub original_title: Option<String>,
    /// Localized title (Chinese).
    pub title: Option<String>,
    pub year: Option<u16>,
    pub season: Option<u16>,
    pub episode: Option<u16>,
    /// Confidence score in thousandths.
    pub confidence: u32,
    /// Raw model response, for debugging.
    pub raw_response: Option<String>,
}

impl Default for ParsedFilename {
    fn default() -> (r: Self)
        ensures
            r.original_title is None,
            r.title is None,
            r.year is None,
            r.season is None,
            r.episode is None,
            r.confidence == 0,
            r.raw_response is None,
    {
        ParsedFilename {
            original_title: None,
            title: None,
            year: None,
            season: None,
            episode: None,
            confidence: 0,
            raw_response: None,
        }
    }
}

/// Parser configuration. `min_confidence` is in thousandths.
#[derive(Debug, Clone)]
pub struct ParserConfig {
    /// Maximum concurrent parsing requests.
    pub max_concurrent: usize,
    /// Minimum confidence (thousandths) for a valid result.
    pub min_confidence: u32,
}

impl Default for ParserConfig {
    fn default() -> (r: Self)
        ensures
            r.max_concurrent == 3,
            r.min_confidence == 500,
    {
        ParserConfig { max_concurrent: 3, min_confidence: 500 }
    }
}

/// A scalar of the model's JSON answer, as the season and episode fields hold it.
#[derive(Debug, Clone)]
pub enum JsonScalar {
    /// A number that is a non-negative integer.
    Unsigned(u64),
    /// Any other number (negative or fractional).
    OtherNumber,
    Text(String),
    /// `true`, `false`, `null`, an array or an object.
    Other,
}

/// The fields the model is asked to return. `confidence` is in thousandths.
#[derive(Debug, Clone)]
pub struct AiParseResponse {
    pub original_title: Option<String>,
    pub title: Option<String>,
    pub year: Option<u16>,
    pub season: Option<JsonScalar>,
    pub episode: Option<JsonScalar>,
    pub confidence: Option<u32>,
}

/// The number a season or episode value stands for: an integer (truncated to 16 bits),
/// a numeric string, or the digits of a string such as `S01`.
pub open spec fn json_number(v: JsonScalar) -> Option<nat> {
    match v {
        JsonScalar::Unsigned(n) => Some((n as u16) as nat),
        JsonScalar::Text(s) => match parse_unsigned(s@, 65535) {
            Some(n) => Some(n),
            None => parse_unsigned(s@.filter(|c: char| is_digit(c)), 65535),
        },
        _ => None,
    }
}

pub open spec fn json_field_number(v: Option<JsonScalar>) -> Option<nat> {
    match v {
        Some(x) => json_number(x),
        None => None,
    }
}

/// Confidence reported on a 0-100 scale is brought to 0-1 (values in thousandths).
pub open spec fn normalized_confidence(raw: Option<u32>) -> nat {
    let c = match raw {
        Some(c) => c as nat,
        None => 500,
    };
    if c > 1000 {
        c / 100
    } else {
        c
    }
}

pub open spec fn year_accepted(year: nat, current_year: nat) -> bool {
    1900 <= year <= current_year + 5
}

pub open spec fn blank(s: Option<String>) -> bool {
    match s {
        Some(t) => trim(t@).len() == 0,
        None => false,
    }
}

fn ascii_digits(v: &Vec<char>) -> (r: Vec<char>)
    ensures
        r@ == v@.filter(|c: char| is_digit(c)),
{
    let ghost pred = |c: char| is_digit(c);
    let mut r: Vec<char> = Vec::new();
    let mut i: usize = 0;
    while i < v.len()
        invariant
            i <= v.len(),
            r@ == v@.take(i as int).filter(pred),
            pred == (|c: char| is_digit(c)),
        decreases v.len() - i,
    {
        proof {
            v@.take(i as int).lemma_filter_push(v@[i as int], pred);
            assert(v@.take(i as int).push(v@[i as int]) =~= v@.take(i + 1));
        }
        if v[i] >= '0' && v[i] <= '9' {
            r.push(v[i]);
        }
        i = i + 1;
    }
    assert(v@.take(v.len() as int) =~= v@);
    r
}

/// Parse a season or episode value from its JSON form: `"S01"`, `"1"`, `1`, ...
pub fn parse_number(value: &JsonScalar) -> (r: Option<u16>)
    ensures
        opt_nat(r) == json_number(*value),
{
    match value {
        JsonScalar::Unsigned(n) => Some(*n as u16),
        JsonScalar::Text(s) => {
            let cs = chars_of(s.as_str());
            match parse_unsigned_chars(&cs, 65535) {
                Some(n) => Some(n as u16),
                None => {
                    let digits = ascii_digits(&cs);
                    match parse_unsigned_chars(&digits, 65535) {
                        Some(n) => Some(n as u16),
                        None => None,
                    }
                },
            }
        },
        _ => None,
    }
}

fn parse_field_number(value: &Option<JsonScalar>) -> (r: Option<u16>)
    ensures
        opt_nat(r) == json_field_number(*value),
{
    match value {
        Some(v) => parse_number(v),
        None => None,
    }
}

fn is_blank(s: &Option<String>) -> (r: bool)
    ensures
        r == blank(*s),
{
    match s {
        Some(t) => {
            let cs = chars_of(t.as_str());
            let tr = trim_chars(&cs);
            tr.len() == 0
        },
        None => false,
    }
}


/// Filename parser; the model call itself is made by the caller.
#[derive(Debug, Clone)]
pub struct FilenameParser {
    pub config: ParserConfig,
}

impl FilenameParser {
    /// Create a new parser with default configuration.
    pub fn new() -> (r: Self)
        ensures
            r.config.max_concurrent == 3,
            r.config.min_confidence == 500,
    {
        FilenameParser { config: ParserConfig::default() }
    }

    /// Create a new parser with custom configuration.
    pub fn with_config(config: ParserConfig) -> (r: Self)
        ensures
            r.config == config,
    {
        FilenameParser { config }
    }

    /// Generate the prompt for parsing a filename.
    pub fn generate_prompt(&self, filename: &str, media_type: MediaType) -> (r: String)
        ensures
            r@ == prompt_for(filename@, media_type),
    {
        let mut v: Vec<char> = Vec::new();
        push_prompt_head(&mut v);
        push_str(&mut v, filename);
        push_prompt_middle(&mut v);
        match media_type {
            MediaType::Movies => push_str(&mut v, "这是一个电影文件"),
            MediaType::TvShows => push_str(&mut v, "这是一个电视剧/剧集文件"),
        }
        push_prompt_tail(&mut v);
        string_of(&v)
    }

    /// Build the parse result from the model's response text and its decoded
    /// JSON fields (`None` when the text is not the expected JSON object).
    pub fn parse_ai_response(&self, response: &str, decoded: Option<AiParseResponse>) -> (r:
        ParsedFilename)
        ensures
            r.raw_response is Some && r.raw_response->0@ == response@,
            match decoded {
                Some(ai) => {
                    &&& r.original_title == ai.original_title
                    &&& r.title == ai.title
                    &&& r.year == ai.year
                    &&& opt_nat(r.season) == json_field_number(ai.season)
                    &&& opt_nat(r.episode) == json_field_number(ai.episode)
                    &&& r.confidence == normalized_confidence(ai.confidence)
                },
                None => {
                    &&& r.original_title is None
                    &&& r.title is None
                    &&& r.year is None
                    &&& r.season is None
                    &&& r.episode is None
                    &&& r.confidence == 0
                },
            },
    {
        match decoded {
            Some(ai) => {
                let raw = match ai.confidence {
                    Some(c) => c,
                    None => 500,
                };
                let confidence = if raw > 1000 {
                    raw / 100
                } else {
                    raw
                };
                let season = parse_field_number(&ai.season);
                let episode = parse_field_number(&ai.episode);
                ParsedFilename {
                    original_title: ai.original_title,
                    title: ai.title,
                    year: ai.year,
                    season,
                    episode,
                    confidence,
                    raw_response: Some(response.to_string()),
                }
            },
            None => ParsedFilename {
                original_title: None,
                title: None,
                year: None,
                season: None,
                episode: None,
                confidence: 0,
                raw_response: Some(response.to_string()),
            },
        }
    }

    /// Validate a parsed result against the current year read from the clock
    /// (see `present_year`: when the clock cannot be read, no year is
    /// refused as lying in the future).
    pub fn validate_result(&self, parsed: ParsedFilename) -> (r: Result<ParsedFilename, Error>)
        ensures
            r is Ok,
            r matches Ok(v) ==> exists|y: u16| validated(parsed, y, v),
    {
        let current = present_year();
        let v = validate_with_year(parsed, current);
        Ok(v)
    }

    /// Check if a parsed result meets the minimum confidence threshold.
    pub fn is_valid(&self, parsed: &ParsedFilename) -> (r: bool)
        ensures
            r == (parsed.confidence >= self.config.min_confidence && (parsed.original_title is Some
                || parsed.title is Some)),
    {
        parsed.confidence >= self.config.min_confidence && (parsed.original_title.is_some()
            || parsed.title.is_some())
    }
}

impl Default for FilenameParser {
    fn default() -> (r: Self)
        ensures
            r.config.max_concurrent == 3,
            r.config.min_confidence == 500,
    {
        Self::new()
    }
}

/// What validation makes of `p` when the current year is `current_year`: a year
/// outside 1900..=current+5 is dropped and halves the confidence; seasons outside
/// 1..=100 and episodes outside 1..=1000 are dropped; blank titles are dropped;
/// with no title left the confidence is 0.
pub open spec fn validated(p: ParsedFilename, current_year: u16, v: ParsedFilename) -> bool {
    let year_bad = p.year is Some && !year_accepted(p.year->0 as nat, current_year as nat);
    let conf = if year_bad {
        p.confidence / 2
    } else {
        p.confidence
    };
    &&& v.year == (if year_bad {
        None
    } else {
        p.year
    })
    &&& v.season == (match p.season {
        Some(s) => if 1 <= s <= 100 {
            Some(s)
        } else {
            None
        },
        None => None,
    })
    &&& v.episode == (match p.episode {
        Some(e) => if 1 <= e <= 1000 {
            Some(e)
        } else {
            None
        },
        None => None,
    })
    &&& v.original_title == (if blank(p.original_title) {
        None
    } else {
        p.original_title
    })
    &&& v.title == (if blank(p.title) {
        None
    } else {
        p.title
    })
    &&& v.confidence == (if v.original_title is None && v.title is None {
        0
    } else {
        conf
    })
    &&& v.raw_response == p.raw_response
}

/// Validate a parsed result given the current year.
pub fn validate_with_year(parsed: ParsedFilename, current_year: u16) -> (r: ParsedFilename)
    ensures
        validated(parsed, current_year, r),
{
    let mut p = parsed;
    if let Some(year) = p.year {
        if year < 1900 || (year as u32) > (current_year as u32) + 5 {
            p.year = None;
            p.confidence = p.confidence / 2;
        }
    }
    if let Some(season) = p.season {
        if season == 0 || season > 100 {
            p.season = None;
        }
    }
    if let Some(episode) = p.episode {
        if episode == 0 || episode > 1000 {
            p.episode = None;
        }
    }
    if is_blank(&p.original_title) {
        p.original_title = None;
    }
    if is_blank(&p.title) {
        p.title = None;
    }
    if p.original_title.is_none() && p.title.is_none() {
        p.confidence = 0;
    }
    p
}

} // verus!

verus! {

impl From<OrganizedTvShowInfo> for ParsedFilename {
    /// Full confidence: the name is in the organizer's own format.
    fn from(info: OrganizedTvShowInfo) -> (r: ParsedFilename) {
        ParsedFilename {
            original_title: None,
            title: Some(info.title),
            year: None,
            season: Some(info.season),
            episode: Some(info.episode),
            confidence: 1000,
            raw_response: None,
        }
    }
}

impl vstd::std_specs::convert::FromSpecImpl<OrganizedTvShowInfo> for ParsedFilename {
    open spec fn obeys_from_spec() -> bool {
        true
    }

    open spec fn from_spec(info: OrganizedTvShowInfo) -> ParsedFilename {
        ParsedFilename {
            original_title: None,
            title: Some(info.title),
            year: None,
            season: Some(info.season),
            episode: Some(info.episode),
            confidence: 1000,
            raw_response: None,
        }
    }
}

impl From<OrganizedMovieInfo> for ParsedFilename {
    /// Full confidence: the name is in the organizer's own format.
    fn from(info: OrganizedMovieInfo) -> (r: ParsedFilename) {
        ParsedFilename {
            original_title: info.original_title,
            title: info.title,
            year: Some(info.year),
            season: None,
            episode: None,
            confidence: 1000,
            raw_response: None,
        }
    }
}

impl vstd::std_specs::convert::FromSpecImpl<OrganizedMovieInfo> for ParsedFilename {
    open spec fn obeys_from_spec() -> bool {
        true
    }

    open spec fn from_spec(info: OrganizedMovieInfo) -> ParsedFilename {
        ParsedFilename {
            original_title: info.original_title,
            title: info.title,
            year: Some(info.year),
            season: None,
            episode: None,
            confidence: 1000,
            raw_response: None,
        }
    }
}

} // verus!
