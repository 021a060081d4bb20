//! Plan generation: the decisions of the planner. Scanning, the model and
//! TMDB calls are made by the caller, which hands their results in.

use vstd::prelude::*;
use crate::engine::clock::{present_year, stamp_of, stamp_text, utc_now, utc_time_valid, UtcTime};
use crate::engine::indexer::{join_path, path_join, split_on_slash, split_slash};
use crate::engine::parser::{
    episode_from_filename, extract_episode_from_filename, opt_nat, FilenameParser, ParsedFilename,
};
use crate::engine::pattern::{first_index_from, first_index_from_exec};
use crate::error::Error;
use crate::generators::filename::{
    episode_filename, generate_episode_filename, generate_movie_filename, movie_filename,
};
use crate::models::media::{EpisodeMetadata, MediaType, MovieMetadata, TvShowMetadata, VideoMetadata};
use crate::models::plan::{Operation, OperationType, PlanItem, SampleItem, TargetInfo, VideoFile};
use crate::engine::nfo::utf8_len;
use crate::engine::pattern::{ws_run, ws_run_exec};
use crate::utils::fs::{
    extension, file_name, file_name_of, last_index_of, lemma_last_index_bounds, path_extension, rfind_char,
};
use crate::utils::text::{
    chars_of, contains, contains_seq, decimal, decimal2, decimal2_chars, decimal_chars, is_whitespace,
    is_ws, parse_unsigned, parse_unsigned_chars, push_all, push_str, seq_eq, str_lowercase,
    str_uppercase, string_of, to_lower, to_upper, starts_with, starts_with_seq, occurs_at, find_from,
    trim, trim_chars, all_digits, digits_value, matches_at,
};

verus! {

/// Planner configuration; `min_confidence` is in thousandths.
#[derive(Debug, Clone)]
pub struct PlannerConfig {
    /// Minimum confidence for a parsed filename.
    pub min_confidence: u32,
    /// Whether to download posters.
    pub download_posters: bool,
    /// Poster size for TMDB.
    pub poster_size: String,
    /// Whether to generate NFO files.
    pub generate_nfo: bool,
}

impl Default for PlannerConfig {
    fn default() -> (r: Self)
        ensures
            r.min_confidence == 500,
            r.download_posters,
            r.poster_size@ == "w500"@,
            r.generate_nfo,
    {
        PlannerConfig {
            min_confidence: 500,
            download_posters: true,
            poster_size: "w500".to_string(),
            generate_nfo: true,
        }
    }
}

// ------------------------------------------------------------ country folder

/// The country most likely meant by an original language.
pub open spec fn language_country(lang: Seq<char>) -> Option<Seq<char>> {
    if lang == "ko"@ {
        Some("KR"@)
    } else if lang == "ja"@ {
        Some("JP"@)
    } else if lang == "zh"@ {
        Some("CN"@)
    } else if lang == "en"@ {
        Some("US"@)
    } else if lang == "fr"@ {
        Some("FR"@)
    } else if lang == "de"@ {
        Some("DE"@)
    } else if lang == "es"@ {
        Some("ES"@)
    } else if lang == "it"@ {
        Some("IT"@)
    } else if lang == "ru"@ {
        Some("RU"@)
    } else if lang == "pt"@ {
        Some("BR"@)
    } else if lang == "hi"@ {
        Some("IN"@)
    } else if lang == "th"@ {
        Some("TH"@)
    } else {
        None
    }
}

/// ASCII letters in lower case; other characters as they are.
pub open spec fn ascii_lower(c: char) -> char {
    if 'A' <= c <= 'Z' {
        ((c as u32) + 32) as char
    } else {
        c
    }
}

/// Equal ignoring ASCII case.
pub open spec fn eq_ascii_ci(a: Seq<char>, b: Seq<char>) -> bool {
    a.len() == b.len() && forall|i: int| 0 <= i < a.len() ==> ascii_lower(#[trigger] a[i]) == ascii_lower(b[i])
}

/// Index of the first code equal to `code`, ignoring ASCII case.
pub open spec fn code_index(codes: Seq<String>, code: Seq<char>, from: int) -> Option<int>
    decreases codes.len() - from,
{
    if from < 0 || from >= codes.len() {
        None
    } else if eq_ascii_ci(codes[from]@, code) {
        Some(from)
    } else {
        code_index(codes, code, from + 1)
    }
}

/// The country chosen for the folder: the one of the original language
/// when the work lists it, else the first.
pub open spec fn chosen_country(codes: Seq<String>, lang: Seq<char>) -> int {
    match language_country(lang) {
        Some(p) => match code_index(codes, p, 0) {
            Some(i) => i,
            None => 0,
        },
        None => 0,
    }
}

/// A name with its white space removed and each word capitalized.
pub open spec fn camel(s: Seq<char>, at_start: bool) -> Seq<char>
    decreases s.len(),
{
    if s.len() == 0 {
        s
    } else if is_ws(s[0]) {
        camel(s.drop_first(), true)
    } else if at_start {
        str_uppercase(seq![s[0]]) + camel(s.drop_first(), false)
    } else {
        seq![s[0]] + camel(s.drop_first(), false)
    }
}

/// The country folder: upper-case code, `_`, the capitalized name.
pub open spec fn country_folder(codes: Seq<String>, names: Seq<String>, lang: Seq<char>) -> Option<Seq<char>> {
    if codes.len() == 0 || names.len() == 0 {
        None
    } else {
        let i = chosen_country(codes, lang);
        Some(str_uppercase(codes[i]@) + seq!['_'] + camel(names[i]@, true))
    }
}

proof fn lemma_code_index(codes: Seq<String>, code: Seq<char>, from: int)
    ensures
        code_index(codes, code, from) matches Some(i) ==> from <= i < codes.len(),
    decreases codes.len() - from,
{
    if 0 <= from < codes.len() && !eq_ascii_ci(codes[from]@, code) {
        lemma_code_index(codes, code, from + 1);
    }
}

fn to_ascii_lower(c: char) -> (r: char)
    ensures
        r == ascii_lower(c),
{
    if 'A' <= c && c <= 'Z' {
        let b: u8 = c as u8;
        (b + 32) as char
    } else {
        c
    }
}

fn eq_ascii_ci_exec(a: &Vec<char>, b: &Vec<char>) -> (r: bool)
    ensures
        r == eq_ascii_ci(a@, b@),
{
    if a.len() != b.len() {
        return false;
    }
    let mut i: usize = 0;
    while i < a.len()
        invariant
            a@.len() == b@.len(),
            i <= a@.len(),
            forall|k: int| 0 <= k < i ==> ascii_lower(#[trigger] a@[k]) == ascii_lower(b@[k]),
        decreases a@.len() - i,
    {
        if to_ascii_lower(a[i]) != to_ascii_lower(b[i]) {
            return false;
        }
        i = i + 1;
    }
    true
}

fn language_country_exec(lang: &str) -> (r: Option<&'static str>)
    ensures
        match r {
            Some(c) => language_country(lang@) == Some(c@),
            None => language_country(lang@) is None,
        },
{
    let l = chars_of(lang);
    let pairs: [(&str, &str); 12] = [
        ("ko", "KR"),
        ("ja", "JP"),
        ("zh", "CN"),
        ("en", "US"),
        ("fr", "FR"),
        ("de", "DE"),
        ("es", "ES"),
        ("it", "IT"),
        ("ru", "RU"),
        ("pt", "BR"),
        ("hi", "IN"),
        ("th", "TH"),
    ];
    let mut i: usize = 0;
    while i < 12
        invariant
            i <= 12,
            l@ == lang@,
            pairs@ == seq![
                ("ko", "KR"),
                ("ja", "JP"),
                ("zh", "CN"),
                ("en", "US"),
                ("fr", "FR"),
                ("de", "DE"),
                ("es", "ES"),
                ("it", "IT"),
                ("ru", "RU"),
                ("pt", "BR"),
                ("hi", "IN"),
                ("th", "TH"),
            ],
            forall|k: int| 0 <= k < i ==> lang@ != (#[trigger] pairs@[k]).0@,
        decreases 12 - i,
    {
        let cand = chars_of(pairs[i].0);
        if seq_eq(&l, &cand) {
            return Some(pairs[i].1);
        }
        i = i + 1;
    }
    None
}

fn find_code(codes: &Vec<String>, code: &str) -> (r: Option<usize>)
    ensures
        match r {
            Some(i) => code_index(codes@, code@, 0) == Some(i as int) && i < codes@.len(),
            None => code_index(codes@, code@, 0) is None,
        },
{
    let pv = chars_of(code);
    let mut k: usize = 0;
    while k < codes.len()
        invariant
            k <= codes@.len(),
            pv@ == code@,
            code_index(codes@, code@, 0) == code_index(codes@, code@, k as int),
        decreases codes@.len() - k,
    {
        let cv = chars_of(codes[k].as_str());
        if eq_ascii_ci_exec(&cv, &pv) {
            return Some(k);
        }
        k = k + 1;
    }
    None
}

/// The capitalized, space-free form of a name.
fn camel_exec(s: &Vec<char>) -> (r: Vec<char>)
    ensures
        r@ == camel(s@, true),
{
    let mut out: Vec<char> = Vec::new();
    let mut at_start = true;
    let mut i: usize = 0;
    assert(s@.subrange(0, s@.len() as int) =~= s@);
    while i < s.len()
        invariant
            i <= s@.len(),
            out@ + camel(s@.subrange(i as int, s@.len() as int), at_start) == camel(s@, true),
        decreases s@.len() - i,
    {
        let c = s[i];
        let ghost rest = s@.subrange(i as int, s@.len() as int);
        assert(rest.drop_first() =~= s@.subrange(i + 1, s@.len() as int));
        if is_whitespace(c) {
            at_start = true;
        } else if at_start {
            let mut one: Vec<char> = Vec::new();
            one.push(c);
            assert(one@ =~= seq![c]);
            let up = to_upper(&one);
            let ghost before = out@;
            push_all(&mut out, &up);
            assert(out@ + camel(s@.subrange(i + 1, s@.len() as int), false) =~= before + camel(rest, true));
            at_start = false;
        } else {
            let ghost before = out@;
            out.push(c);
            assert(out@ + camel(s@.subrange(i + 1, s@.len() as int), false) =~= before + camel(rest, false));
        }
        i = i + 1;
    }
    assert(out@ + camel(s@.subrange(i as int, s@.len() as int), at_start) =~= out@);
    out
}

/// Format the country folder name from ISO codes and country names, e.g.
/// `CN_China`, `US_UnitedStates`; for a co-production, the country of the
/// original language is preferred when listed.
pub fn format_country_folder(codes: &Vec<String>, names: &Vec<String>, original_language: &str) -> (r: Option<String>)
    requires
        codes@.len() > 0 && names@.len() > 0 ==> chosen_country(codes@, original_language@) < names@.len(),
    ensures
        match r {
            Some(f) => country_folder(codes@, names@, original_language@) == Some(f@),
            None => country_folder(codes@, names@, original_language@) is None,
        },
{
    if codes.len() == 0 || names.len() == 0 {
        return None;
    }
    let idx: usize = match language_country_exec(original_language) {
        Some(pref) => match find_code(codes, pref) {
            Some(i) => i,
            None => 0,
        },
        None => 0,
    };
    assert(idx as int == chosen_country(codes@, original_language@));
    let code_up = to_upper(&chars_of(codes[idx].as_str()));
    let name = camel_exec(&chars_of(names[idx].as_str()));
    let mut v = code_up;
    v.push('_');
    push_all(&mut v, &name);
    assert(v@ =~= str_uppercase(codes@[idx as int]@) + seq!['_'] + camel(names@[idx as int]@, true));
    Some(string_of(&v))
}

// ------------------------------------------------------------ dates

/// The year at the start of a date: the text before the first `-`, as
/// `str::parse::<u16>` reads it, or 0.
pub open spec fn year_of_date(date: Option<Seq<char>>) -> nat {
    match date {
        Some(d) => match parse_unsigned(d.subrange(0, first_index_from(d, '-', 0)), 0xffff) {
            Some(y) => y,
            None => 0,
        },
        None => 0,
    }
}

/// The year at the start of a date, or 0.
pub fn year_from_date(date: &Option<String>) -> (r: u16)
    ensures
        r == year_of_date(match date {
            Some(d) => Some(d@),
            None => None,
        }),
{
    match date {
        Some(d) => {
            let dv = chars_of(d.as_str());
            let k = first_index_from_exec(&dv, '-', 0);
            let head = crate::utils::text::slice(&dv, 0, k);
            match parse_unsigned_chars(&head, 0xffff) {
                Some(y) => y as u16,
                None => 0,
            }
        },
        None => 0,
    }
}

// ------------------------------------------------------------ targets

/// An operation as plain values: kind, from, to, url, content.
pub type OpView = (OperationType, Option<Seq<char>>, Seq<char>, Option<Seq<char>>, Option<Seq<char>>);

pub open spec fn text_of(o: Option<String>) -> Option<Seq<char>> {
    match o {
        Some(s) => Some(s@),
        None => None,
    }
}

pub open spec fn op_view(o: Operation) -> OpView {
    (o.op, text_of(o.from), o.to@, text_of(o.url), text_of(o.content_ref))
}

/// The extension of the video, or `mkv`.
pub open spec fn video_ext(path: Seq<char>) -> Seq<char> {
    match extension(path) {
        Some(e) => e,
        None => "mkv"@,
    }
}

/// `Season 01`, `Season 02`, ...
pub open spec fn season_folder_name(n: u16) -> Seq<char> {
    "Season "@ + decimal2(n as nat)
}

/// The episode a TV show file gets: the one found, else a placeholder
/// named after the episode number.
pub open spec fn episode_used(parsed: ParsedFilename, found: Option<EpisodeMetadata>, e: EpisodeMetadata) -> bool {
    match found {
        Some(x) => e == x,
        None => {
            let s = match parsed.season {
                Some(v) => v,
                None => 1u16,
            };
            let n = match parsed.episode {
                Some(v) => v,
                None => 1u16,
            };
            &&& e.season_number == s
            &&& e.episode_number == n
            &&& e.name@ == "Episode "@ + decimal(n as nat)
            &&& e.original_name is None
            &&& e.air_date is None
            &&& e.overview is None
        },
    }
}

/// The country folder of the metadata in use, or `Unknown`.
pub open spec fn country_of(
    movie: Option<MovieMetadata>,
    tvshow: Option<(TvShowMetadata, Option<EpisodeMetadata>)>,
    media_type: MediaType,
) -> Seq<char> {
    let f = match media_type {
        MediaType::Movies => match movie {
            Some(m) => country_folder(m.country_codes@, m.countries@, m.original_language@),
            None => None,
        },
        MediaType::TvShows => match tvshow {
            Some(t) => country_folder(t.0.country_codes@, t.0.countries@, t.0.original_language@),
            None => None,
        },
    };
    match f {
        Some(c) => c,
        None => "Unknown"@,
    }
}

/// The country folder can be chosen without reading past the names.
pub open spec fn country_choosable(
    movie: Option<MovieMetadata>,
    tvshow: Option<(TvShowMetadata, Option<EpisodeMetadata>)>,
    media_type: MediaType,
) -> bool {
    match media_type {
        MediaType::Movies => movie matches Some(m) ==> (m.country_codes@.len() > 0 && m.countries@.len() > 0
            ==> chosen_country(m.country_codes@, m.original_language@) < m.countries@.len()),
        MediaType::TvShows => tvshow matches Some(t) ==> (t.0.country_codes@.len() > 0
            && t.0.countries@.len() > 0 ==> chosen_country(t.0.country_codes@, t.0.original_language@)
            < t.0.countries@.len()),
    }
}

/// The TV show of the metadata.
pub open spec fn show_meta(t: Option<(TvShowMetadata, Option<EpisodeMetadata>)>) -> TvShowMetadata {
    match t {
        Some((s, _)) => s,
        None => arbitrary(),
    }
}

/// The episode found with the TV show, if any.
pub open spec fn found_episode(t: Option<(TvShowMetadata, Option<EpisodeMetadata>)>) -> Option<EpisodeMetadata> {
    match t {
        Some((_, e)) => e,
        None => None,
    }
}

/// The first poster of the movie, else of the TV show.
pub open spec fn poster_of(
    movie: Option<MovieMetadata>,
    tvshow: Option<(TvShowMetadata, Option<EpisodeMetadata>)>,
) -> Option<Seq<char>> {
    let m = match movie {
        Some(x) => if x.poster_urls@.len() > 0 {
            Some(x.poster_urls@[0]@)
        } else {
            None
        },
        None => None,
    };
    match m {
        Some(u) => Some(u),
        None => match tvshow {
            Some(t) => if t.0.poster_urls@.len() > 0 {
                Some(t.0.poster_urls@[0]@)
            } else {
                None
            },
            None => None,
        },
    }
}

/// The operations that organize one video: make the folder, move the
/// file, write the NFO (when configured) and fetch the poster (when
/// configured and there is one).
pub open spec fn planned_ops(
    video_path: Seq<char>,
    folder: Seq<char>,
    file: Seq<char>,
    nfo_path: Seq<char>,
    poster_dir: Seq<char>,
    poster: Option<Seq<char>>,
    config: PlannerConfig,
) -> Seq<OpView> {
    let base = seq![
        (OperationType::Mkdir, None, folder, None, None),
        (OperationType::Move, Some(video_path), file, None, None),
    ];
    let with_nfo = if config.generate_nfo {
        base.push((OperationType::Create, None, nfo_path, None, Some("nfo"@)))
    } else {
        base
    };
    if config.download_posters && poster is Some {
        with_nfo.push((OperationType::Download, None, path_join(poster_dir, "poster.jpg"@), poster, None))
    } else {
        with_nfo
    }
}

fn first_poster(urls: &Vec<String>) -> (r: Option<String>)
    ensures
        text_of(r) == (if urls@.len() > 0 {
            Some(urls@[0]@)
        } else {
            None
        }),
{
    if urls.len() > 0 {
        Some(urls[0].clone())
    } else {
        None
    }
}

/// The episode a TV show file gets.
fn episode_for(parsed: &ParsedFilename, found: &Option<EpisodeMetadata>) -> (r: EpisodeMetadata)
    ensures
        episode_used(*parsed, *found, r),
{
    match found {
        Some(e) => EpisodeMetadata {
            season_number: e.season_number,
            episode_number: e.episode_number,
            name: e.name.clone(),
            original_name: copy_text(&e.original_name),
            air_date: copy_text(&e.air_date),
            overview: copy_text(&e.overview),
        },
        None => {
            let s: u16 = match parsed.season {
                Some(v) => v,
                None => 1,
            };
            let n: u16 = match parsed.episode {
                Some(v) => v,
                None => 1,
            };
            let mut name = chars_of("Episode ");
            let d = decimal_chars(n as u64);
            push_all(&mut name, &d);
            EpisodeMetadata {
                season_number: s,
                episode_number: n,
                name: string_of(&name),
                original_name: None,
                air_date: None,
                overview: None,
            }
        },
    }
}

fn copy_text(o: &Option<String>) -> (r: Option<String>)
    ensures
        r == *o,
{
    match o {
        Some(t) => Some(t.clone()),
        None => None,
    }
}

/// `info` and `ops` place the video as `generate_target_info` promises.
pub open spec fn target_ok(
    config: PlannerConfig,
    video_path: Seq<char>,
    movie: Option<MovieMetadata>,
    tvshow: Option<(TvShowMetadata, Option<EpisodeMetadata>)>,
    parsed: ParsedFilename,
    video: VideoMetadata,
    target: Seq<char>,
    media_type: MediaType,
    folder_name: Seq<char>,
    info: TargetInfo,
    ops: Seq<Operation>,
) -> bool {
    let country = path_join(target, country_of(movie, tvshow, media_type));
    let show_dir = path_join(country, folder_name);
    let ext = video_ext(video_path);
    &&& info.poster matches Some(p) && p@ == "poster.jpg"@
    &&& match media_type {
        MediaType::Movies => {
            let file = path_join(show_dir, info.filename@);
            &&& info.filename@ == movie_filename(movie->0, video, None, ext)
            &&& info.folder@ == folder_name
            &&& info.full_path@ == file
            &&& info.nfo@ == "movie.nfo"@
            &&& ops.map_values(|o: Operation| op_view(o)) == planned_ops(
                video_path,
                show_dir,
                file,
                path_join(show_dir, "movie.nfo"@),
                show_dir,
                poster_of(movie, tvshow),
                config,
            )
        },
        MediaType::TvShows => {
            let season = season_folder_name(
                match parsed.season {
                    Some(v) => v,
                    None => 1u16,
                },
            );
            let season_dir = path_join(show_dir, season);
            let file = path_join(season_dir, info.filename@);
            &&& exists|e: EpisodeMetadata|
                #[trigger] episode_used(parsed, found_episode(tvshow), e) && info.filename@
                    == episode_filename(show_meta(tvshow), e, video, ext)
            &&& info.folder@ == folder_name + seq!['/'] + season
            &&& info.full_path@ == file
            &&& info.nfo@ == "tvshow.nfo"@
            &&& ops.map_values(|o: Operation| op_view(o)) == planned_ops(
                video_path,
                season_dir,
                file,
                path_join(show_dir, "tvshow.nfo"@),
                show_dir,
                poster_of(movie, tvshow),
                config,
            )
        },
    }
}

/// Where a video goes and the operations that take it there. `folder_name`
/// is the work's folder (from the folder naming); files go under the
/// country folder, TV show episodes in their season folder, with the NFO
/// and poster in the show folder.
pub fn generate_target_info(
    config: &PlannerConfig,
    video_path: &str,
    movie: &Option<MovieMetadata>,
    tvshow: &Option<(TvShowMetadata, Option<EpisodeMetadata>)>,
    parsed: &ParsedFilename,
    video: &VideoMetadata,
    target: &str,
    media_type: MediaType,
    folder_name: &str,
) -> (r: Result<(TargetInfo, Vec<Operation>), Error>)
    requires
        country_choosable(*movie, *tvshow, media_type),
    ensures
        media_type == MediaType::Movies && movie is None ==> (r matches Err(Error::Other(m)) && m@
            == "Missing movie metadata"@),
        media_type == MediaType::TvShows && tvshow is None ==> (r matches Err(Error::Other(m)) && m@
            == "Missing TV show metadata"@),
        (match media_type {
            MediaType::Movies => movie is Some,
            MediaType::TvShows => tvshow is Some,
        }) ==> (r matches Ok((info, ops)) && target_ok(
            *config,
            video_path@,
            *movie,
            *tvshow,
            *parsed,
            *video,
            target@,
            media_type,
            folder_name@,
            info,
            ops@,
        )),
{
    let ext: String = match path_extension(video_path) {
        Some(e) => e,
        None => "mkv".to_string(),
    };
    let (filename, nfo_name, season_folder): (String, &str, Option<String>) = match media_type {
        MediaType::Movies => match movie {
            Some(m) => (generate_movie_filename(m, video, None, ext.as_str()), "movie.nfo", None),
            None => {
                return Err(Error::Other("Missing movie metadata".to_string()));
            },
        },
        MediaType::TvShows => match tvshow {
            Some((show, found)) => {
                let s: u16 = match parsed.season {
                    Some(v) => v,
                    None => 1,
                };
                let mut sv = chars_of("Season ");
                let d = decimal2_chars(s as u64);
                push_all(&mut sv, &d);
                let ep = episode_for(parsed, found);
                let f = generate_episode_filename(show, &ep, video, ext.as_str());
                (f, "tvshow.nfo", Some(string_of(&sv)))
            },
            None => {
                return Err(Error::Other("Missing TV show metadata".to_string()));
            },
        },
    };
    let country: Option<String> = match media_type {
        MediaType::Movies => match movie {
            Some(m) => format_country_folder(&m.country_codes, &m.countries, m.original_language.as_str()),
            None => None,
        },
        MediaType::TvShows => match tvshow {
            Some((show, _)) => format_country_folder(
                &show.country_codes,
                &show.countries,
                show.original_language.as_str(),
            ),
            None => None,
        },
    };
    let country_name: String = match country {
        Some(c) => c,
        None => "Unknown".to_string(),
    };
    let country_path = join_path(target, country_name.as_str());
    let show_folder = join_path(country_path.as_str(), folder_name);
    let target_folder: String = match &season_folder {
        Some(sd) => join_path(show_folder.as_str(), sd.as_str()),
        None => show_folder.clone(),
    };
    let target_file = join_path(target_folder.as_str(), filename.as_str());
    let target_nfo: String = match &season_folder {
        Some(_) => join_path(show_folder.as_str(), nfo_name),
        None => join_path(target_folder.as_str(), nfo_name),
    };
    let mut ops: Vec<Operation> = Vec::new();
    ops.push(Operation { op: OperationType::Mkdir, from: None, to: target_folder.clone(), url: None, content_ref: None });
    ops.push(Operation {
        op: OperationType::Move,
        from: Some(video_path.to_string()),
        to: target_file.clone(),
        url: None,
        content_ref: None,
    });
    if config.generate_nfo {
        ops.push(Operation {
            op: OperationType::Create,
            from: None,
            to: target_nfo.clone(),
            url: None,
            content_ref: Some("nfo".to_string()),
        });
    }
    if config.download_posters {
        let poster_folder: String = match &season_folder {
            Some(_) => show_folder.clone(),
            None => target_folder.clone(),
        };
        let from_movie: Option<String> = match movie {
            Some(m) => first_poster(&m.poster_urls),
            None => None,
        };
        let poster_url: Option<String> = match from_movie {
            Some(u) => Some(u),
            None => match tvshow {
                Some((show, _)) => first_poster(&show.poster_urls),
                None => None,
            },
        };
        match poster_url {
            Some(url) => {
                let poster_path = join_path(poster_folder.as_str(), "poster.jpg");
                ops.push(Operation {
                    op: OperationType::Download,
                    from: None,
                    to: poster_path,
                    url: Some(url),
                    content_ref: None,
                });
            },
            None => {},
        }
    }
    let display_folder: String = match &season_folder {
        Some(sd) => {
            let mut v = chars_of(folder_name);
            v.push('/');
            push_str(&mut v, sd.as_str());
            assert(v@ =~= folder_name@ + seq!['/'] + sd@);
            string_of(&v)
        },
        None => folder_name.to_string(),
    };
    let info = TargetInfo {
        folder: display_folder,
        filename,
        full_path: target_file,
        nfo: nfo_name.to_string(),
        poster: Some("poster.jpg".to_string()),
    };
    proof {
        assert(ops@.map_values(|o: Operation| op_view(o)) =~= planned_ops(
            video_path@,
            target_folder@,
            target_file@,
            target_nfo@,
            match season_folder {
                Some(_) => show_folder@,
                None => target_folder@,
            },
            poster_of(*movie, *tvshow),
            *config,
        ));
    }
    Ok((info, ops))
}

// ------------------------------------------------------------ matching

/// The characters of `s`, each once, in order of first appearance.
pub open spec fn distinct(s: Seq<char>) -> Seq<char>
    decreases s.len(),
{
    if s.len() == 0 {
        s
    } else {
        let d = distinct(s.drop_last());
        if d.contains(s.last()) {
            d
        } else {
            d.push(s.last())
        }
    }
}

pub open spec fn in_text(t: Seq<char>) -> spec_fn(char) -> bool {
    |c: char| t.contains(c)
}

/// How many distinct characters the two texts share.
pub open spec fn common_chars(a: Seq<char>, b: Seq<char>) -> nat {
    distinct(a).filter(in_text(b)).len()
}

/// At least half of the distinct characters of the shorter text (by
/// distinct characters) also occur in the other.
pub open spec fn chars_overlap(a: Seq<char>, b: Seq<char>) -> bool {
    let m = if distinct(a).len() <= distinct(b).len() {
        distinct(a).len()
    } else {
        distinct(b).len()
    };
    m > 0 && common_chars(a, b) * 2 >= m
}

/// One text holds the other, ignoring case.
pub open spec fn either_holds(a: Seq<char>, b: Seq<char>) -> bool {
    contains_seq(str_lowercase(a), str_lowercase(b)) || contains_seq(str_lowercase(b), str_lowercase(a))
}

/// A TMDB result plausibly is what the query names.
pub open spec fn reasonable_match(query: Seq<char>, title: Seq<char>, original: Seq<char>) -> bool {
    either_holds(title, query) || either_holds(original, query) || chars_overlap(query, title)
}

proof fn lemma_distinct_contains(s: Seq<char>, c: char)
    ensures
        distinct(s).contains(c) == s.contains(c),
    decreases s.len(),
{
    if s.len() > 0 {
        let p = s.drop_last();
        lemma_distinct_contains(p, c);
        if p.contains(c) {
            let i = choose|i: int| 0 <= i < p.len() && p[i] == c;
            assert(s[i] == c);
        }
        if s.contains(c) {
            let i = choose|i: int| 0 <= i < s.len() && s[i] == c;
            if i < s.len() - 1 {
                assert(p[i] == c);
            }
        }
        if distinct(s).contains(c) && !distinct(p).contains(c) {
            assert(c == s.last());
            assert(s[s.len() - 1] == c);
        }
        if distinct(p).contains(c) && !distinct(s).contains(c) {
            let d = distinct(p);
            let i = choose|i: int| 0 <= i < d.len() && d[i] == c;
            assert(d.push(s.last())[i] == c);
        }
        if c == s.last() && !distinct(p).contains(c) {
            let d = distinct(p);
            assert(d.push(s.last())[d.len() as int] == c);
        }
    }
}

fn has_char(v: &Vec<char>, c: char) -> (r: bool)
    ensures
        r == v@.contains(c),
{
    let mut i: usize = 0;
    while i < v.len()
        invariant
            i <= v@.len(),
            forall|k: int| 0 <= k < i ==> v@[k] != c,
        decreases v@.len() - i,
    {
        if v[i] == c {
            return true;
        }
        i = i + 1;
    }
    false
}

fn distinct_exec(s: &Vec<char>) -> (r: Vec<char>)
    ensures
        r@ == distinct(s@),
{
    let mut out: Vec<char> = Vec::new();
    let mut i: usize = 0;
    while i < s.len()
        invariant
            i <= s@.len(),
            out@ == distinct(s@.take(i as int)),
        decreases s@.len() - i,
    {
        assert(s@.take(i + 1).drop_last() =~= s@.take(i as int));
        if !has_char(&out, s[i]) {
            out.push(s[i]);
        }
        i = i + 1;
    }
    assert(s@.take(s@.len() as int) =~= s@);
    out
}

fn chars_overlap_exec(a: &Vec<char>, b: &Vec<char>) -> (r: bool)
    ensures
        r == chars_overlap(a@, b@),
{
    let da = distinct_exec(a);
    let db = distinct_exec(b);
    let ghost p = in_text(b@);
    let mut common: usize = 0;
    let mut i: usize = 0;
    proof {
        reveal(Seq::filter);
        assert(da@.take(0) =~= Seq::<char>::empty());
    }
    while i < da.len()
        invariant
            i <= da@.len(),
            p == in_text(b@),
            common == da@.take(i as int).filter(p).len(),
            common <= i,
        decreases da@.len() - i,
    {
        proof {
            crate::engine::indexer::lemma_filter_step(da@, p, i as int);
        }
        if has_char(b, da[i]) {
            common = common + 1;
        }
        i = i + 1;
    }
    assert(da@.take(da@.len() as int) =~= da@);
    let m = if da.len() <= db.len() {
        da.len()
    } else {
        db.len()
    };
    m > 0 && (common > usize::MAX / 2 || common * 2 >= m)
}

fn either_holds_exec(a: &Vec<char>, b: &Vec<char>) -> (r: bool)
    ensures
        r == either_holds(a@, b@),
{
    let al = to_lower(a);
    let bl = to_lower(b);
    contains(&al, &bl) || contains(&bl, &al)
}

/// Check whether a TMDB match is reasonable: one title holds the other
/// (ignoring case), or they share at least half of their characters.
pub fn is_reasonable_match(query: &str, tmdb_title: &str, tmdb_orig: &str) -> (r: bool)
    ensures
        r == reasonable_match(query@, tmdb_title@, tmdb_orig@),
{
    let q = chars_of(query);
    let t = chars_of(tmdb_title);
    let o = chars_of(tmdb_orig);
    if either_holds_exec(&t, &q) {
        return true;
    }
    if either_holds_exec(&o, &q) {
        return true;
    }
    chars_overlap_exec(&q, &t)
}

/// A TV show found by a TMDB search.
#[derive(Debug, Clone)]
pub struct TvCandidate {
    pub id: u64,
    pub name: String,
    pub original_name: String,
}

/// How well a TV show result fits the query; `None` when it does not fit.
/// An exact name scores 1000; a name that starts with the query 500, less
/// 10 for each character it has beyond the query; a name that the query
/// holds 400; a name that holds the query 100; shared characters 50.
pub open spec fn tv_score(q: Seq<char>, c: TvCandidate) -> Option<int> {
    let ql = str_lowercase(q);
    let nl = str_lowercase(c.name@);
    let ol = str_lowercase(c.original_name@);
    if nl == ql || ol == ql {
        Some(1000)
    } else if starts_with_seq(nl, ql) || starts_with_seq(ol, ql) {
        Some(500 - 10 * (c.name@.len() - q.len()))
    } else if contains_seq(ql, nl) || contains_seq(ql, ol) {
        Some(400)
    } else if contains_seq(nl, ql) || contains_seq(ol, ql) {
        Some(100)
    } else if chars_overlap(q, c.name@) {
        Some(50)
    } else {
        None
    }
}

/// The best score so far and where it was first reached (from -1 at 0).
pub open spec fn tv_best(q: Seq<char>, cs: Seq<TvCandidate>) -> (int, int)
    decreases cs.len(),
{
    if cs.len() == 0 {
        (-1, 0)
    } else {
        let (bs, bi) = tv_best(q, cs.drop_last());
        match tv_score(q, cs.last()) {
            Some(s) => if s > bs {
                (s, cs.len() - 1)
            } else {
                (bs, bi)
            },
            None => (bs, bi),
        }
    }
}

/// The index of the best TV show result, unless none scores at least 0.
pub open spec fn best_tv_index(q: Seq<char>, cs: Seq<TvCandidate>) -> Option<int> {
    if tv_best(q, cs).0 >= 0 {
        Some(tv_best(q, cs).1)
    } else {
        None
    }
}

/// The score of a result whose name starts with the query is computed in
/// `i32` from the two lengths: they fit in `i32`, and `500 - 10 * (name
/// length - query length)` does not overflow.
pub open spec fn tv_score_fits(q: Seq<char>, c: TvCandidate) -> bool {
    let ql = str_lowercase(q);
    let nl = str_lowercase(c.name@);
    let ol = str_lowercase(c.original_name@);
    nl != ql && ol != ql && (starts_with_seq(nl, ql) || starts_with_seq(ol, ql)) ==> (q.len()
        <= i32::MAX && c.name@.len() <= i32::MAX && -214_748_314 <= c.name@.len() - q.len()
        <= 214_748_364)
}

/// Every result's score can be computed (see `tv_score_fits`).
pub open spec fn tv_names_fit(q: Seq<char>, cs: Seq<TvCandidate>) -> bool {
    forall|i: int| 0 <= i < cs.len() ==> tv_score_fits(q, #[trigger] cs[i])
}

proof fn lemma_tv_best(q: Seq<char>, cs: Seq<TvCandidate>)
    ensures
        tv_best(q, cs).0 >= 0 ==> 0 <= tv_best(q, cs).1 < cs.len(),
        tv_best(q, cs).0 >= -1,
    decreases cs.len(),
{
    if cs.len() > 0 {
        lemma_tv_best(q, cs.drop_last());
    }
}

fn tv_score_exec(q: &Vec<char>, ql: &Vec<char>, c: &TvCandidate) -> (r: Option<i32>)
    requires
        ql@ == str_lowercase(q@),
        tv_score_fits(q@, *c),
    ensures
        match r {
            Some(s) => tv_score(q@, *c) == Some(s as int),
            None => tv_score(q@, *c) is None,
        },
{
    let name = chars_of(c.name.as_str());
    let orig = chars_of(c.original_name.as_str());
    let nl = to_lower(&name);
    let ol = to_lower(&orig);
    if seq_eq(&nl, ql) || seq_eq(&ol, ql) {
        Some(1000)
    } else if starts_with(&nl, ql) || starts_with(&ol, ql) {
        let diff: i32 = name.len() as i32 - q.len() as i32;
        Some(500 - diff * 10)
    } else if contains(ql, &nl) || contains(ql, &ol) {
        Some(400)
    } else if contains(&nl, ql) || contains(&ol, ql) {
        Some(100)
    } else if chars_overlap_exec(q, &name) {
        Some(50)
    } else {
        None
    }
}

/// Select the best TV show match from search results: an exact name,
/// then the shortest name starting with the query, then a name the query
/// holds, then one holding the query, then shared characters; the first of
/// equal scores wins.
pub fn select_best_tv_match(query: &str, results: &Vec<TvCandidate>) -> (r: Option<usize>)
    requires
        tv_names_fit(query@, results@),
    ensures
        match r {
            Some(i) => best_tv_index(query@, results@) == Some(i as int) && i < results@.len(),
            None => best_tv_index(query@, results@) is None,
        },
{
    proof {
        lemma_tv_best(query@, results@);
    }
    if results.len() == 0 {
        return None;
    }
    let q = chars_of(query);
    let ql = to_lower(&q);
    let mut best_idx: usize = 0;
    let mut best_score: i32 = -1;
    let mut i: usize = 0;
    while i < results.len()
        invariant
            i <= results@.len(),
            q@ == query@,
            ql@ == str_lowercase(query@),
            tv_names_fit(query@, results@),
            tv_best(query@, results@.take(i as int)) == (best_score as int, best_idx as int),
        decreases results@.len() - i,
    {
        assert(results@.take(i + 1).drop_last() =~= results@.take(i as int));
        assert(results@.take(i + 1).last() == results@[i as int]);
        match tv_score_exec(&q, &ql, &results[i]) {
            Some(s) => {
                if s > best_score {
                    best_score = s;
                    best_idx = i;
                }
            },
            None => {},
        }
        i = i + 1;
    }
    assert(results@.take(results@.len() as int) =~= results@);
    if best_score >= 0 {
        Some(best_idx)
    } else {
        None
    }
}

/// A movie found by a TMDB search.
#[derive(Debug, Clone)]
pub struct MovieCandidate {
    pub id: u64,
    pub title: String,
    pub original_title: String,
    pub release_date: Option<String>,
    pub vote_count: Option<u32>,
}

/// What `char::is_alphanumeric` says of a character (Unicode Alphabetic
/// or Numeric).
pub uninterp spec fn char_is_alphanumeric(c: char) -> bool;

/// Calls `char::is_alphanumeric`; the answer is named by
/// `char_is_alphanumeric`.
#[verifier::external_body]
fn is_alphanumeric(c: char) -> (r: bool)
    ensures
        r == char_is_alphanumeric(c),
{
    c.is_alphanumeric()
}

pub open spec fn alnum_chars(s: Seq<char>) -> Seq<char>
    decreases s.len(),
{
    if s.len() == 0 {
        s
    } else if char_is_alphanumeric(s.last()) {
        alnum_chars(s.drop_last()).push(s.last())
    } else {
        alnum_chars(s.drop_last())
    }
}

/// A title for comparison: its letters and digits, in lower case.
pub open spec fn normalized_title(s: Seq<char>) -> Seq<char> {
    str_lowercase(alnum_chars(s))
}

fn alnum_exec(s: &Vec<char>) -> (r: Vec<char>)
    ensures
        r@ == alnum_chars(s@),
{
    let mut out: Vec<char> = Vec::new();
    let mut i: usize = 0;
    while i < s.len()
        invariant
            i <= s@.len(),
            out@ == alnum_chars(s@.take(i as int)),
        decreases s@.len() - i,
    {
        assert(s@.take(i + 1).drop_last() =~= s@.take(i as int));
        if is_alphanumeric(s[i]) {
            out.push(s[i]);
        }
        i = i + 1;
    }
    assert(s@.take(s@.len() as int) =~= s@);
    out
}

/// Normalize a title for comparison: letters and digits, lower case.
pub fn normalize_title(title: &str) -> (r: String)
    ensures
        r@ == normalized_title(title@),
{
    let a = alnum_exec(&chars_of(title));
    string_of(&to_lower(&a))
}

pub open spec fn movie_year(c: MovieCandidate) -> nat {
    year_of_date(text_of(c.release_date))
}

/// The score of a movie result, or `None` when it comes out more than a
/// year after `current`: 100000 for an exact title, plus the votes, plus
/// 100 when it has a year.
pub open spec fn movie_score(q: Seq<char>, c: MovieCandidate, current: u16) -> Option<int> {
    let y = movie_year(c);
    if y > current + 1 {
        None
    } else {
        let exact = normalized_title(c.title@) == normalized_title(q) || normalized_title(
            c.original_title@,
        ) == normalized_title(q);
        Some(
            (if exact {
                100000int
            } else {
                0
            }) + match c.vote_count {
                Some(v) => v as int,
                None => 0,
            } + if y > 0 {
                100int
            } else {
                0
            },
        )
    }
}

pub open spec fn movie_best(q: Seq<char>, cs: Seq<MovieCandidate>, current: u16) -> (int, int)
    decreases cs.len(),
{
    if cs.len() == 0 {
        (-1, 0)
    } else {
        let (bs, bi) = movie_best(q, cs.drop_last(), current);
        match movie_score(q, cs.last(), current) {
            Some(s) => if s > bs {
                (s, cs.len() - 1)
            } else {
                (bs, bi)
            },
            None => (bs, bi),
        }
    }
}

proof fn lemma_movie_best(q: Seq<char>, cs: Seq<MovieCandidate>, current: u16)
    ensures
        0 <= movie_best(q, cs, current).1,
        cs.len() > 0 ==> movie_best(q, cs, current).1 < cs.len(),
        movie_best(q, cs, current).0 >= -1,
    decreases cs.len(),
{
    if cs.len() > 0 {
        lemma_movie_best(q, cs.drop_last(), current);
    }
}

/// The best movie result for `current` (the present year): an exact title
/// first, then the most votes; results more than a year ahead are passed
/// over; the first of equal scores wins, and the first result when none
/// is taken.
pub fn best_movie_index(results: &Vec<MovieCandidate>, query_title: &str, current: u16) -> (r: usize)
    requires
        results@.len() > 0,
        current < 0xffff,
    ensures
        r as int == movie_best(query_title@, results@, current).1,
        r < results@.len(),
{
    let qn = normalize_title(query_title);
    let qv = chars_of(qn.as_str());
    let mut best_idx: usize = 0;
    let mut best_score: i64 = -1;
    let mut i: usize = 0;
    while i < results.len()
        invariant
            i <= results@.len(),
            current < 0xffff,
            qv@ == normalized_title(query_title@),
            movie_best(query_title@, results@.take(i as int), current) == (best_score as int, best_idx as int),
            best_score <= 100000 + 0xffff_ffff + 100,
        decreases results@.len() - i,
    {
        assert(results@.take(i + 1).drop_last() =~= results@.take(i as int));
        assert(results@.take(i + 1).last() == results@[i as int]);
        let c = &results[i];
        let year = year_from_date(&c.release_date);
        if year <= current + 1 {
            let tn = chars_of(normalize_title(c.title.as_str()).as_str());
            let on = chars_of(normalize_title(c.original_title.as_str()).as_str());
            let exact = seq_eq(&tn, &qv) || seq_eq(&on, &qv);
            let bonus: i64 = if exact {
                100000
            } else {
                0
            };
            let votes: i64 = match c.vote_count {
                Some(v) => v as i64,
                None => 0,
            };
            let dated: i64 = if year > 0 {
                100
            } else {
                0
            };
            let score = bonus + votes + dated;
            if score > best_score {
                best_score = score;
                best_idx = i;
            }
        }
        i = i + 1;
    }
    assert(results@.take(results@.len() as int) =~= results@);
    proof {
        lemma_movie_best(query_title@, results@, current);
    }
    best_idx
}

/// Select the best movie match for the present year (see `present_year`).
pub fn select_best_movie_match(results: &Vec<MovieCandidate>, query_title: &str) -> (r: usize)
    requires
        results@.len() > 0,
    ensures
        r < results@.len(),
        exists|current: u16| r as int == #[trigger] movie_best(query_title@, results@, current).1,
{
    let c = present_year();
    best_movie_index(results, query_title, c)
}

// ------------------------------------------------------------ safety

/// The move operations of the items, as (target, source file) pairs.
pub open spec fn moves_of(items: Seq<PlanItem>) -> Seq<(Seq<char>, Seq<char>)>
    decreases items.len(),
{
    if items.len() == 0 {
        seq![]
    } else {
        moves_of(items.drop_last()) + item_moves(items.last(), items.last().operations@.len() as int)
    }
}

/// The moves among the first `n` operations of an item.
pub open spec fn item_moves(item: PlanItem, n: int) -> Seq<(Seq<char>, Seq<char>)>
    decreases n,
{
    if n <= 0 || n > item.operations@.len() {
        seq![]
    } else {
        let o = item.operations@[n - 1];
        item_moves(item, n - 1) + if o.op == OperationType::Move {
            seq![(o.to@, item.source.path@)]
        } else {
            seq![]
        }
    }
}

/// Two moves share a target.
pub open spec fn has_duplicate_target(moves: Seq<(Seq<char>, Seq<char>)>) -> bool {
    exists|i: int, j: int| 0 <= i < j < moves.len() && #[trigger] moves[i].0 == #[trigger] moves[j].0
}

pub open spec fn dup_pair(mv: Seq<(Seq<char>, Seq<char>)>, i: int, j: int) -> bool {
    0 <= i < j < mv.len() && mv[i].0 == mv[j].0
}

pub open spec fn same_target(mv: Seq<(Seq<char>, Seq<char>)>, a: int, j: int) -> bool {
    mv[j].0 == mv[a].0
}

/// The first line of the report of duplicate targets.
pub open spec fn duplicate_header() -> Seq<char> {
    "CRITICAL: Duplicate target paths detected! This would cause data loss.\n\n"@
}

/// The text `{:?}` gives for a string.
pub uninterp spec fn debug_quoted(s: Seq<char>) -> Seq<char>;

/// Formats a string with `{:?}`; the text is named by `debug_quoted`.
#[verifier::external_body]
fn quoted(s: &str) -> (r: String)
    ensures
        r@ == debug_quoted(s@),
{
    format!("{:?}", s)
}

fn collect_moves(items: &Vec<PlanItem>) -> (r: Vec<(String, String)>)
    ensures
        r@.map_values(|p: (String, String)| (p.0@, p.1@)) == moves_of(items@),
{
    let mut out: Vec<(String, String)> = Vec::new();
    let mut i: usize = 0;
    while i < items.len()
        invariant
            i <= items@.len(),
            out@.map_values(|p: (String, String)| (p.0@, p.1@)) == moves_of(items@.take(i as int)),
        decreases items@.len() - i,
    {
        assert(items@.take(i + 1).drop_last() =~= items@.take(i as int));
        let item = &items[i];
        let ghost before = out@.map_values(|p: (String, String)| (p.0@, p.1@));
        let mut k: usize = 0;
        assert(before + item_moves(*item, 0) =~= before);
        while k < item.operations.len()
            invariant
                k <= item.operations@.len(),
                out@.map_values(|p: (String, String)| (p.0@, p.1@)) == before + item_moves(*item, k as int),
            decreases item.operations@.len() - k,
        {
            let o = &item.operations[k];
            if o.op == OperationType::Move {
                let ghost b2 = out@;
                out.push((o.to.clone(), item.source.path.clone()));
                assert(out@.map_values(|p: (String, String)| (p.0@, p.1@)) =~= b2.map_values(
                    |p: (String, String)| (p.0@, p.1@),
                ).push((o.to@, item.source.path@)));
            }
            assert(out@.map_values(|p: (String, String)| (p.0@, p.1@)) =~= before + item_moves(
                *item,
                k + 1,
            ));
            k = k + 1;
        }
        i = i + 1;
    }
    assert(items@.take(items@.len() as int) =~= items@);
    out
}

/// The source lines of the moves in `a..c` that share the target of move
/// `a`, one `    - "source"` line each.
pub open spec fn source_lines(mv: Seq<(Seq<char>, Seq<char>)>, a: int, c: int) -> Seq<char>
    decreases c - a,
{
    if c <= a {
        Seq::empty()
    } else {
        source_lines(mv, a, c - 1) + if mv[c - 1].0 == mv[a].0 {
            "    - "@ + debug_quoted(mv[c - 1].1) + seq!['\n']
        } else {
            Seq::empty()
        }
    }
}

/// How many moves in `a..c` share the target of move `a`.
pub open spec fn same_count(mv: Seq<(Seq<char>, Seq<char>)>, a: int, c: int) -> nat
    decreases c - a,
{
    if c <= a {
        0
    } else {
        same_count(mv, a, c - 1) + if mv[c - 1].0 == mv[a].0 {
            1nat
        } else {
            0nat
        }
    }
}

/// Move `a` is the first to its target and another move shares it: the
/// target is reported once, at its first move.
pub open spec fn reported(mv: Seq<(Seq<char>, Seq<char>)>, a: int) -> bool {
    &&& forall|i: int| 0 <= i < a ==> mv[i].0 != mv[a].0
    &&& same_count(mv, a, mv.len() as int) > 1
}

/// The report of the target of move `a`, when it is reported.
pub open spec fn duplicate_block(mv: Seq<(Seq<char>, Seq<char>)>, a: int) -> Seq<char> {
    if reported(mv, a) {
        "Target: "@ + debug_quoted(mv[a].0) + "\n  Would overwrite these source files:\n"@
            + source_lines(mv, a, mv.len() as int) + seq!['\n']
    } else {
        Seq::empty()
    }
}

/// The reports of the targets of the first `n` moves, in move order.
pub open spec fn duplicate_report(mv: Seq<(Seq<char>, Seq<char>)>, n: int) -> Seq<char>
    decreases n,
{
    if n <= 0 {
        Seq::empty()
    } else {
        duplicate_report(mv, n - 1) + duplicate_block(mv, n - 1)
    }
}

/// How many targets the first `n` moves report.
pub open spec fn duplicate_targets(mv: Seq<(Seq<char>, Seq<char>)>, n: int) -> nat
    decreases n,
{
    if n <= 0 {
        0
    } else {
        duplicate_targets(mv, n - 1) + if reported(mv, n - 1) {
            1nat
        } else {
            0nat
        }
    }
}

/// `x + y`, saturating at `usize::MAX`.
pub open spec fn sat_add(x: int, y: int) -> int {
    if x + y > usize::MAX {
        usize::MAX as int
    } else {
        x + y
    }
}

/// How many files the reported targets of the first `n` moves affect.
pub open spec fn affected_files(mv: Seq<(Seq<char>, Seq<char>)>, n: int) -> int
    decreases n,
{
    if n <= 0 {
        0
    } else {
        sat_add(
            affected_files(mv, n - 1),
            if reported(mv, n - 1) {
                same_count(mv, n - 1, mv.len() as int) as int
            } else {
                0
            },
        )
    }
}

/// The full report of duplicate targets: the header, each duplicated
/// target with the sources that would land on it, the totals and the
/// abort notice.
pub open spec fn duplicate_message(mv: Seq<(Seq<char>, Seq<char>)>) -> Seq<char> {
    duplicate_header() + duplicate_report(mv, mv.len() as int) + "Total: "@ + decimal(
        duplicate_targets(mv, mv.len() as int),
    ) + " duplicate targets affecting "@ + decimal(affected_files(mv, mv.len() as int) as nat)
        + " files.\nPlan generation aborted to prevent data loss."@
}

/// Check that no two items move files to the same target path, which
/// would make one overwrite the other. The report lists each duplicated
/// target with the files that would land on it.
pub fn validate_no_duplicate_targets(items: &Vec<PlanItem>) -> (r: Result<(), Error>)
    ensures
        r is Ok <==> !has_duplicate_target(moves_of(items@)),
        r matches Err(e) ==> e matches Error::Other(m) && m@ == duplicate_message(moves_of(items@)),
        r matches Err(e) ==> e matches Error::Other(m) && m@.len() >= duplicate_header().len()
            && m@.subrange(0, duplicate_header().len() as int) == duplicate_header(),
{
    let moves = collect_moves(items);
    let ghost mv = moves@.map_values(|p: (String, String)| (p.0@, p.1@));
    let mut msg = chars_of("CRITICAL: Duplicate target paths detected! This would cause data loss.\n\n");
    let ghost header = msg@;
    let mut dup_targets: usize = 0;
    let mut affected: usize = 0;
    let mut a: usize = 0;
    while a < moves.len()
        invariant
            a <= moves@.len(),
            mv == moves@.map_values(|p: (String, String)| (p.0@, p.1@)),
            header == duplicate_header(),
            msg@ == header + duplicate_report(mv, a as int),
            dup_targets <= a,
            dup_targets == duplicate_targets(mv, a as int),
            affected == affected_files(mv, a as int),
            (dup_targets == 0) <==> !(exists|i: int, j: int| i < a && #[trigger] dup_pair(mv, i, j)),
        decreases moves@.len() - a,
    {
        // only the first move to a target reports it
        let mut seen_before = false;
        let mut b: usize = 0;
        while b < a
            invariant
                b <= a,
                a < moves@.len(),
                mv == moves@.map_values(|p: (String, String)| (p.0@, p.1@)),
                seen_before == exists|i: int| 0 <= i < b && #[trigger] mv[i].0 == mv[a as int].0,
            decreases a - b,
        {
            if moves[b].0 == moves[a].0 {
                assert(mv[b as int].0 == mv[a as int].0);
                seen_before = true;
            }
            b = b + 1;
        }
        let mut lines: Vec<char> = chars_of("    - ");
        let q0 = quoted(moves[a].1.as_str());
        push_str(&mut lines, q0.as_str());
        lines.push('\n');
        let mut count: usize = 1;
        assert(source_lines(mv, a as int, a as int) =~= Seq::<char>::empty());
        assert(lines@ =~= source_lines(mv, a as int, a + 1));
        assert(same_count(mv, a as int, a as int) == 0);
        assert(same_count(mv, a as int, a + 1) == 1);
        let mut c: usize = a + 1;
        while c < moves.len()
            invariant
                a < c <= moves@.len(),
                1 <= count <= c - a,
                mv == moves@.map_values(|p: (String, String)| (p.0@, p.1@)),
                lines@ == source_lines(mv, a as int, c as int),
                count == same_count(mv, a as int, c as int),
                (count > 1) ==> exists|j: int| a < j < c && #[trigger] same_target(mv, a as int, j),
                (exists|j: int| a < j < c && #[trigger] same_target(mv, a as int, j)) ==> count > 1,
            decreases moves@.len() - c,
        {
            let ghost l0 = lines@;
            if moves[c].0 == moves[a].0 {
                assert(same_target(mv, a as int, c as int));
                push_str(&mut lines, "    - ");
                let sq = quoted(moves[c].1.as_str());
                push_str(&mut lines, sq.as_str());
                lines.push('\n');
                count = count + 1;
                assert(lines@ =~= source_lines(mv, a as int, c + 1));
            } else {
                assert(!same_target(mv, a as int, c as int));
                assert forall|j: int| a < j < c + 1 && #[trigger] same_target(mv, a as int, j) implies j < c by {}
                assert(lines@ =~= source_lines(mv, a as int, c + 1));
            }
            c = c + 1;
        }
        proof {
            if seen_before {
                let i = choose|i: int| 0 <= i < a && #[trigger] mv[i].0 == mv[a as int].0;
                assert(!reported(mv, a as int));
            }
        }
        let ghost before = msg@;
        if count > 1 && !seen_before {
            assert(reported(mv, a as int));
            push_str(&mut msg, "Target: ");
            let t = quoted(moves[a].0.as_str());
            push_str(&mut msg, t.as_str());
            push_str(&mut msg, "\n  Would overwrite these source files:\n");
            push_all(&mut msg, &lines);
            msg.push('\n');
            assert(msg@ =~= before + duplicate_block(mv, a as int));
            dup_targets = dup_targets + 1;
            affected = affected.saturating_add(count);
        } else {
            assert(!reported(mv, a as int));
            assert(msg@ =~= before + duplicate_block(mv, a as int));
        }
        proof {
            assert(duplicate_report(mv, a + 1) == duplicate_report(mv, a as int) + duplicate_block(mv, a as int));
            assert(msg@ =~= header + duplicate_report(mv, a + 1));
            if count > 1 {
                let j = choose|j: int| a < j < mv.len() && #[trigger] same_target(mv, a as int, j);
                assert(dup_pair(mv, a as int, j));
                if seen_before {
                    let i = choose|i: int| 0 <= i < a && #[trigger] mv[i].0 == mv[a as int].0;
                    assert(dup_pair(mv, i, a as int));
                }
            } else {
                assert forall|i: int, j: int| i < a + 1 && #[trigger] dup_pair(mv, i, j) implies i < a by {
                    if i == a {
                        assert(same_target(mv, a as int, j));
                    }
                }
            }
        }
        a = a + 1;
    }
    if dup_targets == 0 {
        assert forall|i: int, j: int| 0 <= i < j < mv.len() implies #[trigger] mv[i].0 != #[trigger] mv[j].0 by {
            if mv[i].0 == mv[j].0 {
                assert(dup_pair(mv, i, j));
            }
        }
        return Ok(());
    }
    proof {
        let (i, j) = choose|i: int, j: int| i < a && #[trigger] dup_pair(mv, i, j);
        assert(mv[i].0 == mv[j].0);
    }
    let ghost before = msg@;
    push_str(&mut msg, "Total: ");
    push_all(&mut msg, &decimal_chars(dup_targets as u64));
    push_str(&mut msg, " duplicate targets affecting ");
    push_all(&mut msg, &decimal_chars(affected as u64));
    push_str(&mut msg, " files.\nPlan generation aborted to prevent data loss.");
    assert(msg@ =~= duplicate_message(mv));
    assert(msg@.subrange(0, header.len() as int) =~= header);
    Err(Error::Other(string_of(&msg)))
}

// ------------------------------------------------------------ queries

/// The number of UTF-8 bytes of a text.
pub open spec fn byte_len(s: Seq<char>) -> int
    decreases s.len(),
{
    if s.len() == 0 {
        0
    } else {
        byte_len(s.drop_last()) + utf8_len(s.last())
    }
}

fn byte_len_exec(v: &Vec<char>) -> (r: usize)
    ensures
        r as int == byte_len(v@) || (r == usize::MAX && byte_len(v@) >= usize::MAX),
{
    let mut n: usize = 0;
    let mut i: usize = 0;
    while i < v.len()
        invariant
            i <= v@.len(),
            n as int == byte_len(v@.take(i as int)) || (n == usize::MAX && byte_len(v@.take(i as int)) >= usize::MAX),
        decreases v@.len() - i,
    {
        assert(v@.take(i + 1).drop_last() =~= v@.take(i as int));
        let c = v[i];
        let u: usize = if (c as u32) < 0x80 {
            1
        } else if (c as u32) < 0x800 {
            2
        } else if (c as u32) < 0x10000 {
            3
        } else {
            4
        };
        n = n.saturating_add(u);
        i = i + 1;
    }
    assert(v@.take(v@.len() as int) =~= v@);
    n
}

/// Index of the first occurrence of `p` in `s` at or after `from`, or -1.
pub open spec fn first_at(s: Seq<char>, p: Seq<char>, from: int) -> int
    decreases s.len() + 1 - from,
{
    if from < 0 || from > s.len() {
        -1
    } else if occurs_at(s, p, from) {
        from
    } else {
        first_at(s, p, from + 1)
    }
}

proof fn lemma_first_at(s: Seq<char>, p: Seq<char>, from: int, k: int)
    requires
        0 <= from <= k,
        forall|j: int| from <= j < k ==> !occurs_at(s, p, j),
    ensures
        first_at(s, p, from) == first_at(s, p, k),
    decreases k - from,
{
    if from < k {
        lemma_first_at(s, p, from + 1, k);
    }
}

fn find_first(s: &Vec<char>, p: &Vec<char>) -> (r: Option<usize>)
    ensures
        match r {
            Some(i) => first_at(s@, p@, 0) == i as int && i <= s@.len(),
            None => first_at(s@, p@, 0) == -1,
        },
{
    match find_from(s, p, 0) {
        Some(i) => {
            proof {
                lemma_first_at(s@, p@, 0, i as int);
            }
            Some(i)
        },
        None => {
            proof {
                lemma_first_at(s@, p@, 0, (s@.len() + 1) as int);
            }
            None
        },
    }
}

/// Add a candidate query when it has at least four bytes and is new.
pub open spec fn add_query(qs: Seq<Seq<char>>, cand: Seq<char>) -> Seq<Seq<char>> {
    if byte_len(cand) >= 4 && !qs.contains(cand) {
        qs.push(cand)
    } else {
        qs
    }
}

/// The delimiters after which a long title may be cut.
pub open spec fn title_delimiters() -> Seq<Seq<char>> {
    seq![" - "@, " – "@, "："@, ":"@, " 钟"@, " 与"@, " 和"@]
}

/// Queries after trying the cuts at the first `n` delimiters.
pub open spec fn cut_queries(qs: Seq<Seq<char>>, title: Seq<char>, n: int) -> Seq<Seq<char>>
    decreases n,
{
    if n <= 0 {
        qs
    } else {
        let before = cut_queries(qs, title, n - 1);
        let k = first_at(title, title_delimiters()[n - 1], 0);
        if k >= 0 {
            add_query(before, trim(title.subrange(0, k)))
        } else {
            before
        }
    }
}

/// Index of the first non-white-space character at or after `i`.
pub open spec fn skip_ws(s: Seq<char>, i: int) -> int {
    i + ws_run(s, i)
}

/// Index of the first white-space character at or after `i`, or the end.
pub open spec fn word_end(s: Seq<char>, i: int) -> int
    decreases s.len() - i,
{
    if i < 0 || i >= s.len() || is_ws(s[i]) {
        i
    } else {
        word_end(s, i + 1)
    }
}

/// The first two words of a text joined by a space, when it has two.
pub open spec fn first_two_words(s: Seq<char>) -> Option<Seq<char>> {
    let a = skip_ws(s, 0);
    let b = word_end(s, a);
    let c = skip_ws(s, b);
    let d = word_end(s, c);
    if a < s.len() && c < s.len() {
        Some(s.subrange(a, b) + seq![' '] + s.subrange(c, d))
    } else {
        None
    }
}

/// The queries after adding shortened forms of a long title: the part
/// before each delimiter, then for titles over 20 characters the first two
/// words.
pub open spec fn shortened_queries(qs: Seq<Seq<char>>, title: Seq<char>) -> Seq<Seq<char>> {
    let cut = cut_queries(qs, title, 7);
    if title.len() > 20 {
        match first_two_words(title) {
            Some(w) => add_query(cut, w),
            None => cut,
        }
    } else {
        cut
    }
}

fn texts_has(qs: &Vec<String>, cand: &Vec<char>) -> (r: bool)
    ensures
        r == qs@.map_values(|q: String| q@).contains(cand@),
{
    let ghost v = qs@.map_values(|q: String| q@);
    let mut i: usize = 0;
    while i < qs.len()
        invariant
            i <= qs@.len(),
            v == qs@.map_values(|q: String| q@),
            forall|k: int| 0 <= k < i ==> v[k] != cand@,
        decreases qs@.len() - i,
    {
        let qv = chars_of(qs[i].as_str());
        if seq_eq(&qv, cand) {
            assert(v[i as int] == cand@);
            return true;
        }
        i = i + 1;
    }
    false
}

fn add_query_exec(qs: &mut Vec<String>, cand: &Vec<char>)
    ensures
        final(qs)@.map_values(|q: String| q@) == add_query(old(qs)@.map_values(|q: String| q@), cand@),
{
    let n = byte_len_exec(cand);
    if n >= 4 && !texts_has(qs, cand) {
        let ghost before = qs@;
        qs.push(string_of(cand));
        assert(qs@.map_values(|q: String| q@) =~= before.map_values(|q: String| q@).push(cand@));
    }
}

fn skip_ws_exec(s: &Vec<char>, i: usize) -> (r: usize)
    requires
        i <= s@.len(),
    ensures
        r as int == skip_ws(s@, i as int),
        i <= r <= s@.len(),
{
    let k = ws_run_exec(s, i);
    i + k
}

fn word_end_exec(s: &Vec<char>, i: usize) -> (r: usize)
    requires
        i <= s@.len(),
    ensures
        r as int == word_end(s@, i as int),
        i <= r <= s@.len(),
    decreases s@.len() - i,
{
    if i >= s.len() || is_whitespace(s[i]) {
        i
    } else {
        word_end_exec(s, i + 1)
    }
}

/// Add shortened versions of a long title to the search queries: the part
/// before a delimiter (` - `, ` – `, `：`, `:`, ` 钟`, ` 与`, ` 和`), and
/// for a title over 20 characters its first two words; each is added when
/// it has at least four bytes and is not already there.
pub fn add_shortened_queries(queries: &mut Vec<String>, title: &str)
    ensures
        final(queries)@.map_values(|q: String| q@) == shortened_queries(
            old(queries)@.map_values(|q: String| q@),
            title@,
        ),
{
    let t = chars_of(title);
    let delims: [&str; 7] = [" - ", " – ", "：", ":", " 钟", " 与", " 和"];
    let ghost q0 = queries@.map_values(|q: String| q@);
    assert(delims@.map_values(|d: &str| d@) =~= title_delimiters());
    let mut i: usize = 0;
    while i < 7
        invariant
            i <= 7,
            t@ == title@,
            delims@.map_values(|d: &str| d@) == title_delimiters(),
            queries@.map_values(|q: String| q@) == cut_queries(q0, title@, i as int),
        decreases 7 - i,
    {
        let d = chars_of(delims[i]);
        assert(d@ == title_delimiters()[i as int]);
        match find_first(&t, &d) {
            Some(pos) => {
                let head = crate::utils::text::slice(&t, 0, pos);
                let cand = trim_chars(&head);
                add_query_exec(queries, &cand);
            },
            None => {},
        }
        i = i + 1;
    }
    if t.len() > 20 {
        let a = skip_ws_exec(&t, 0);
        let b = word_end_exec(&t, a);
        let c = skip_ws_exec(&t, b);
        let d = word_end_exec(&t, c);
        if a < t.len() && c < t.len() {
            let mut w = crate::utils::text::slice(&t, a, b);
            w.push(' ');
            let ghost w1 = w@;
            let second = crate::utils::text::slice(&t, c, d);
            push_all(&mut w, &second);
            assert(w@ =~= t@.subrange(a as int, b as int) + seq![' '] + t@.subrange(c as int, d as int));
            add_query_exec(queries, &w);
        }
    }
}

// ------------------------------------------------------------ filenames

/// The ASCII digits of a text, in order.
pub open spec fn ascii_digits_of(s: Seq<char>) -> Seq<char>
    decreases s.len(),
{
    if s.len() == 0 {
        s
    } else if '0' <= s.last() <= '9' {
        ascii_digits_of(s.drop_last()).push(s.last())
    } else {
        ascii_digits_of(s.drop_last())
    }
}

/// A filename with little title in it: at most 8 letters and digits
/// before its extension, or a special (`sp`, `ova`, `特别`) named by a year
/// from 1990 to 2030 alone.
pub open spec fn minimal_filename(filename: Seq<char>) -> bool {
    let name = str_lowercase(filename);
    let k = last_index_of(name, '.');
    let stem = if k < 0 {
        Seq::<char>::empty()
    } else {
        name.subrange(0, k)
    };
    if alnum_chars(stem).len() <= 8 {
        true
    } else if contains_seq(name, "sp"@) || contains_seq(name, "ova"@) || contains_seq(name, "特别"@) {
        let d = ascii_digits_of(name);
        d.len() == 4 && 1990 <= digits_value(d) <= 2030
    } else {
        false
    }
}

fn ascii_digits_exec(s: &Vec<char>) -> (r: Vec<char>)
    ensures
        r@ == ascii_digits_of(s@),
        all_digits(r@),
{
    let mut out: Vec<char> = Vec::new();
    let mut i: usize = 0;
    while i < s.len()
        invariant
            i <= s@.len(),
            out@ == ascii_digits_of(s@.take(i as int)),
            all_digits(out@),
        decreases s@.len() - i,
    {
        assert(s@.take(i + 1).drop_last() =~= s@.take(i as int));
        if '0' <= s[i] && s[i] <= '9' {
            out.push(s[i]);
        }
        i = i + 1;
    }
    assert(s@.take(s@.len() as int) =~= s@);
    out
}

/// Check whether a filename lacks meaningful title information.
pub fn is_minimal_filename(filename: &str) -> (r: bool)
    ensures
        r == minimal_filename(filename@),
{
    let name = to_lower(&chars_of(filename));
    let stem: Vec<char> = match rfind_char(&name, '.') {
        Some(k) => crate::utils::text::slice(&name, 0, k),
        None => Vec::new(),
    };
    proof {
        lemma_last_index_bounds(name@, '.');
    }
    assert(last_index_of(name@, '.') < 0 ==> stem@ =~= Seq::<char>::empty());
    let count = alnum_exec(&stem).len();
    if count <= 8 {
        return true;
    }
    if contains(&name, &chars_of("sp")) || contains(&name, &chars_of("ova")) || contains(&name, &chars_of("特别")) {
        let d = ascii_digits_exec(&name);
        if d.len() == 4 {
            match parse_unsigned_chars(&d, 0xffff) {
                Some(y) => {
                    return 1990 <= y && y <= 2030;
                },
                None => {
                    return false;
                },
            }
        }
    }
    false
}

/// Parent names that say nothing of the title.
pub open spec fn generic_parent(name: Seq<char>) -> bool {
    name == "Movies"@ || name == "movies"@ || name == "TvShows"@ || name == "tvshows"@
}

/// The text given to the model for a video: with a minimal filename, the
/// parent folder's name (when it looks like a title) and the filename.
pub open spec fn parse_input(filename: Seq<char>, parent_dir: Seq<char>) -> Seq<char> {
    let parent = match file_name(parent_dir) {
        Some(n) => n,
        None => Seq::empty(),
    };
    let has_title = parent.len() > 0 && !generic_parent(parent) && !starts_with_seq(parent, "."@)
        && byte_len(parent) > 3;
    if minimal_filename(filename) && has_title {
        parent + " - "@ + filename
    } else {
        filename
    }
}

/// Build the input text for the model (see `parse_input`).
pub fn build_parse_input(video: &VideoFile) -> (r: String)
    ensures
        r@ == parse_input(video.filename@, video.parent_dir@),
{
    let parent: Vec<char> = match file_name_of(&chars_of(video.parent_dir.as_str())) {
        Some(n) => n,
        None => Vec::new(),
    };
    let minimal = is_minimal_filename(video.filename.as_str());
    let generic = seq_eq(&parent, &chars_of("Movies")) || seq_eq(&parent, &chars_of("movies"))
        || seq_eq(&parent, &chars_of("TvShows")) || seq_eq(&parent, &chars_of("tvshows"));
    let dotted = starts_with(&parent, &chars_of("."));
    let has_title = parent.len() > 0 && !generic && !dotted && byte_len_exec(&parent) > 3;
    if minimal && has_title {
        let mut v = parent;
        push_str(&mut v, " - ");
        push_str(&mut v, video.filename.as_str());
        string_of(&v)
    } else {
        video.filename.clone()
    }
}

/// The path without its final component, as far as the name of that
/// parent goes (`Path::parent`).
pub open spec fn parent_path(p: Seq<char>) -> Option<Seq<char>>
    decreases p.len(),
{
    if p.len() == 0 {
        None
    } else if p.last() == '/' {
        if p.len() == 1 {
            None
        } else {
            parent_path(p.drop_last())
        }
    } else {
        let k = last_index_of(p, '/');
        proof {
            lemma_last_index_bounds(p, '/');
        }
        if k >= 0 && p.subrange(k + 1, p.len() as int) == seq!['.'] {
            parent_path(p.subrange(0, k + 1))
        } else if k < 0 {
            Some(Seq::empty())
        } else if k == 0 {
            Some(seq!['/'])
        } else {
            Some(p.subrange(0, k))
        }
    }
}

/// A folder name that describes the release rather than the show.
pub open spec fn quality_folder(name: Seq<char>) -> bool {
    let l = str_lowercase(name);
    contains_seq(l, "1080"@) || contains_seq(l, "720"@) || contains_seq(l, "2160"@) || contains_seq(
        l,
        "4k"@,
    ) || contains_seq(l, "内封"@) || contains_seq(l, "外挂"@) || contains_seq(l, "字幕"@)
        || starts_with_seq(l, "season"@)
}

/// The folder name that names the show: the folder itself, or else its
/// parent, unless both describe the release.
pub open spec fn meaningful_folder(p: Seq<char>) -> Option<Seq<char>> {
    match file_name(p) {
        Some(n) if !quality_folder(n) => Some(n),
        _ => match parent_path(p) {
            Some(q) => match file_name(q) {
                Some(n) if !quality_folder(n) => Some(n),
                _ => None,
            },
            None => None,
        },
    }
}

fn quality_folder_exec(name: &Vec<char>) -> (r: bool)
    ensures
        r == quality_folder(name@),
{
    let l = to_lower(name);
    contains(&l, &chars_of("1080")) || contains(&l, &chars_of("720")) || contains(&l, &chars_of("2160"))
        || contains(&l, &chars_of("4k")) || contains(&l, &chars_of("内封")) || contains(
        &l,
        &chars_of("外挂"),
    ) || contains(&l, &chars_of("字幕")) || starts_with(&l, &chars_of("season"))
}

fn parent_path_exec(p: &Vec<char>) -> (r: Option<Vec<char>>)
    ensures
        match r {
            Some(q) => parent_path(p@) == Some(q@),
            None => parent_path(p@) is None,
        },
{
    let mut end: usize = p.len();
    assert(p@.subrange(0, end as int) =~= p@);
    loop
        invariant
            end <= p@.len(),
            parent_path(p@) == parent_path(p@.subrange(0, end as int)),
        decreases end,
    {
        let ghost q = p@.subrange(0, end as int);
        if end == 0 {
            return None;
        }
        if p[end - 1] == '/' {
            if end == 1 {
                return None;
            }
            assert(q.drop_last() =~= p@.subrange(0, end - 1));
            end = end - 1;
        } else {
            let head = crate::utils::text::slice(p, 0, end);
            proof {
                lemma_last_index_bounds(q, '/');
            }
            match rfind_char(&head, '/') {
                Some(k) => {
                    if k + 2 == end && p[k + 1] == '.' {
                        assert(q.subrange(k + 1, q.len() as int) =~= seq!['.']);
                        assert(q.subrange(0, k + 1) =~= p@.subrange(0, k + 1));
                        end = k + 1;
                    } else {
                        assert(q.subrange(k + 1, q.len() as int) != seq!['.']) by {
                            if k + 2 == end {
                                assert(q.subrange(k + 1, q.len() as int)[0] == p@[k + 1]);
                            } else {
                                assert(q.subrange(k + 1, q.len() as int).len() != 1);
                            }
                        }
                        if k == 0 {
                            let mut root: Vec<char> = Vec::new();
                            root.push('/');
                            assert(root@ =~= seq!['/']);
                            return Some(root);
                        }
                        let r = crate::utils::text::slice(p, 0, k);
                        assert(r@ =~= q.subrange(0, k as int));
                        return Some(r);
                    }
                },
                None => {
                    return Some(Vec::new());
                },
            }
        }
    }
}

/// Get a folder name that names the show, skipping release descriptions.
pub fn get_meaningful_folder_name(path: &str) -> (r: Option<String>)
    ensures
        match r {
            Some(n) => meaningful_folder(path@) == Some(n@),
            None => meaningful_folder(path@) is None,
        },
{
    let p = chars_of(path);
    match file_name_of(&p) {
        Some(n) => {
            if !quality_folder_exec(&n) {
                return Some(string_of(&n));
            }
        },
        None => {},
    }
    match parent_path_exec(&p) {
        Some(q) => match file_name_of(&q) {
            Some(n) => {
                if !quality_folder_exec(&n) {
                    Some(string_of(&n))
                } else {
                    None
                }
            },
            None => None,
        },
        None => None,
    }
}

// ------------------------------------------------------------ searches

/// The movie search queries: the title and its shortened forms, then the
/// original title when it is new.
pub open spec fn movie_queries(title: Option<Seq<char>>, original: Option<Seq<char>>) -> Seq<Seq<char>> {
    let a = match title {
        Some(t) => if t.len() > 0 {
            shortened_queries(seq![t], t)
        } else {
            seq![]
        },
        None => seq![],
    };
    match original {
        Some(o) => if o.len() > 0 && !a.contains(o) {
            a.push(o)
        } else {
            a
        },
        None => a,
    }
}

/// Build the movie search queries for a parsed filename.
pub fn build_movie_queries(parsed: &ParsedFilename) -> (r: Vec<String>)
    ensures
        r@.map_values(|q: String| q@) == movie_queries(text_of(parsed.title), text_of(parsed.original_title)),
{
    let mut queries: Vec<String> = Vec::new();
    match &parsed.title {
        Some(t) => {
            if chars_of(t.as_str()).len() > 0 {
                queries.push(t.clone());
                assert(queries@.map_values(|q: String| q@) =~= seq![t@]);
                add_shortened_queries(&mut queries, t.as_str());
            }
        },
        None => {},
    }
    match &parsed.original_title {
        Some(o) => {
            let ov = chars_of(o.as_str());
            if ov.len() > 0 && !texts_has(&queries, &ov) {
                let ghost before = queries@;
                queries.push(o.clone());
                assert(queries@.map_values(|q: String| q@) =~= before.map_values(|q: String| q@).push(o@));
            }
        },
        None => {},
    }
    proof {
        if parsed.title is None || text_of(parsed.title)->0.len() == 0 {
            assert(Seq::<String>::empty().map_values(|q: String| q@) =~= Seq::<Seq<char>>::empty());
        }
    }
    queries
}

/// `s` with every `c` replaced by a space.
pub open spec fn spaced(s: Seq<char>, c: char) -> Seq<char> {
    s.map_values(|x: char| if x == c { ' ' } else { x })
}

/// A title made fit for a TV search: dots and underscores become spaces,
/// and the ends are trimmed.
pub open spec fn clean_query(s: Seq<char>) -> Seq<char> {
    trim(spaced(spaced(s, '.'), '_'))
}

/// `s` without every leading `p`.
pub open spec fn strip_prefixes(s: Seq<char>, p: Seq<char>) -> Seq<char>
    decreases s.len(),
{
    if p.len() > 0 && starts_with_seq(s, p) {
        strip_prefixes(s.subrange(p.len() as int, s.len() as int), p)
    } else {
        s
    }
}

/// The search query a folder name gives: without leading `Z_`/`z_`, up to
/// its first `.`, underscores as spaces.
pub open spec fn folder_query(folder: Seq<char>) -> Seq<char> {
    let f = strip_prefixes(strip_prefixes(folder, "Z_"@), "z_"@);
    spaced(f.subrange(0, first_index_from(f, '.', 0)), '_')
}

/// A folder name that describes the release (case as written).
pub open spec fn release_folder(folder: Seq<char>) -> bool {
    contains_seq(folder, "1080"@) || contains_seq(folder, "720"@) || contains_seq(folder, "2160"@)
        || contains_seq(folder, "4K"@) || contains_seq(folder, "内封"@) || contains_seq(folder, "外挂"@)
}

/// Some query holds `c` or is held by it.
pub open spec fn overlaps_any(qs: Seq<Seq<char>>, c: Seq<char>) -> bool {
    exists|i: int| 0 <= i < qs.len() && (contains_seq(#[trigger] qs[i], c) || contains_seq(c, qs[i]))
}

/// The TV search queries: the cleaned title, the cleaned original title
/// when new, then the folder name when it names something new.
pub open spec fn tv_queries(title: Option<Seq<char>>, original: Option<Seq<char>>, folder: Option<Seq<char>>) -> Seq<
    Seq<char>,
> {
    let a = match title {
        Some(t) => if t.len() > 0 {
            seq![clean_query(t)]
        } else {
            seq![]
        },
        None => seq![],
    };
    let b = match original {
        Some(o) => if o.len() > 0 && !a.contains(clean_query(o)) {
            a.push(clean_query(o))
        } else {
            a
        },
        None => a,
    };
    match folder {
        Some(f) => if !release_folder(f) && folder_query(f).len() > 0 && !overlaps_any(b, folder_query(f)) {
            b.push(folder_query(f))
        } else {
            b
        },
        None => b,
    }
}

fn spaced_exec(s: &Vec<char>, c: char) -> (r: Vec<char>)
    ensures
        r@ == spaced(s@, c),
{
    let mut out: Vec<char> = Vec::new();
    let mut i: usize = 0;
    while i < s.len()
        invariant
            i <= s@.len(),
            out@ == spaced(s@.take(i as int), c),
        decreases s@.len() - i,
    {
        out.push(if s[i] == c { ' ' } else { s[i] });
        assert(out@ =~= spaced(s@.take(i + 1), c));
        i = i + 1;
    }
    assert(s@.take(s@.len() as int) =~= s@);
    out
}

fn clean_query_exec(s: &str) -> (r: Vec<char>)
    ensures
        r@ == clean_query(s@),
{
    let a = spaced_exec(&chars_of(s), '.');
    let b = spaced_exec(&a, '_');
    trim_chars(&b)
}

fn strip_prefixes_exec(s: &Vec<char>, p: &str) -> (r: Vec<char>)
    ensures
        r@ == strip_prefixes(s@, p@),
{
    let pv = chars_of(p);
    let n: usize = s.len();
    let mut start: usize = 0;
    assert(s@.subrange(0, s@.len() as int) =~= s@);
    while pv.len() > 0 && matches_at(s, &pv, start)
        invariant
            start <= s@.len(),
            n == s@.len(),
            pv@ == p@,
            strip_prefixes(s@, p@) == strip_prefixes(s@.subrange(start as int, s@.len() as int), p@),
        decreases s@.len() - start,
    {
        let ghost t = s@.subrange(start as int, s@.len() as int);
        assert(t.subrange(0, pv@.len() as int) =~= s@.subrange(start as int, start + pv@.len()));
        assert(t.subrange(pv@.len() as int, t.len() as int) =~= s@.subrange(start + pv@.len(), s@.len() as int));
        start = start + pv.len();
    }
    let ghost t = s@.subrange(start as int, s@.len() as int);
    proof {
        if pv@.len() > 0 && starts_with_seq(t, p@) {
            assert(t.subrange(0, pv@.len() as int) =~= s@.subrange(start as int, start + pv@.len()));
        }
    }
    crate::utils::text::slice(s, start, s.len())
}

fn overlaps_any_exec(qs: &Vec<String>, c: &Vec<char>) -> (r: bool)
    ensures
        r == overlaps_any(qs@.map_values(|q: String| q@), c@),
{
    let ghost v = qs@.map_values(|q: String| q@);
    let mut i: usize = 0;
    while i < qs.len()
        invariant
            i <= qs@.len(),
            v == qs@.map_values(|q: String| q@),
            forall|k: int| 0 <= k < i ==> !(contains_seq(#[trigger] v[k], c@) || contains_seq(c@, v[k])),
        decreases qs@.len() - i,
    {
        let qv = chars_of(qs[i].as_str());
        if contains(&qv, c) || contains(c, &qv) {
            assert(contains_seq(v[i as int], c@) || contains_seq(c@, v[i as int]));
            return true;
        }
        i = i + 1;
    }
    false
}

/// Build the TV search queries for a parsed filename and its folder name.
pub fn build_tv_queries(parsed: &ParsedFilename, folder_name: Option<&str>) -> (r: Vec<String>)
    ensures
        r@.map_values(|q: String| q@) == tv_queries(
            text_of(parsed.title),
            text_of(parsed.original_title),
            match folder_name {
                Some(f) => Some(f@),
                None => None,
            },
        ),
{
    let mut queries: Vec<String> = Vec::new();
    match &parsed.title {
        Some(t) => {
            if chars_of(t.as_str()).len() > 0 {
                let c = clean_query_exec(t.as_str());
                queries.push(string_of(&c));
                assert(queries@.map_values(|q: String| q@) =~= seq![c@]);
            }
        },
        None => {},
    }
    proof {
        if parsed.title is None || text_of(parsed.title)->0.len() == 0 {
            assert(queries@.map_values(|q: String| q@) =~= Seq::<Seq<char>>::empty());
        }
    }
    match &parsed.original_title {
        Some(o) => {
            if chars_of(o.as_str()).len() > 0 {
                let c = clean_query_exec(o.as_str());
                if !texts_has(&queries, &c) {
                    let ghost before = queries@;
                    queries.push(string_of(&c));
                    assert(queries@.map_values(|q: String| q@) =~= before.map_values(|q: String| q@).push(c@));
                }
            }
        },
        None => {},
    }
    match folder_name {
        Some(f) => {
            let fv = chars_of(f);
            let release = contains(&fv, &chars_of("1080")) || contains(&fv, &chars_of("720"))
                || contains(&fv, &chars_of("2160")) || contains(&fv, &chars_of("4K")) || contains(
                &fv,
                &chars_of("内封"),
            ) || contains(&fv, &chars_of("外挂"));
            if !release {
                let a = strip_prefixes_exec(&fv, "Z_");
                let b = strip_prefixes_exec(&a, "z_");
                let k = first_index_from_exec(&b, '.', 0);
                let head = crate::utils::text::slice(&b, 0, k);
                let cleaned = spaced_exec(&head, '_');
                if cleaned.len() > 0 && !overlaps_any_exec(&queries, &cleaned) {
                    let ghost before = queries@;
                    queries.push(string_of(&cleaned));
                    assert(queries@.map_values(|q: String| q@) =~= before.map_values(|q: String| q@).push(
                        cleaned@,
                    ));
                }
            }
        },
        None => {},
    }
    queries
}

// ------------------------------------------------------------ samples

/// The named components of a path (empty and `.` pieces left out).
pub open spec fn components(p: Seq<char>) -> Seq<Seq<char>> {
    split_slash(p).filter(|c: Seq<char>| c.len() > 0 && c != seq!['.'])
}

/// `Path::starts_with`: `base` is a leading run of the components of `p`,
/// both absolute or both relative.
pub open spec fn path_starts_with(p: Seq<char>, base: Seq<char>) -> bool {
    let a = components(p);
    let b = components(base);
    &&& starts_with_seq(p, "/"@) == starts_with_seq(base, "/"@)
    &&& b.len() <= a.len()
    &&& a.subrange(0, b.len() as int) == b
}

/// The first item whose folder is the sample's folder or contains it.
pub open spec fn sample_owner(sample: VideoFile, items: Seq<PlanItem>, from: int) -> Option<int>
    decreases items.len() - from,
{
    if from < 0 || from >= items.len() {
        None
    } else if sample.parent_dir@ == items[from].source.parent_dir@ || path_starts_with(
        sample.parent_dir@,
        items[from].source.parent_dir@,
    ) {
        Some(from)
    } else {
        sample_owner(sample, items, from + 1)
    }
}

/// Where each sample goes: a `Sample` folder in the folder of the item it
/// belongs to; samples of no item are left out.
/// The folder that holds an item's video (the parent of its target file),
/// where its `Sample` folder goes; `target` when the path has no parent.
pub open spec fn sample_home(full_path: Seq<char>, target: Seq<char>) -> Seq<char> {
    match parent_path(full_path) {
        Some(d) => d,
        None => target,
    }
}

pub open spec fn sample_moves(samples: Seq<VideoFile>, items: Seq<PlanItem>, target: Seq<char>) -> Seq<
    (Seq<char>, Seq<char>),
>
    decreases samples.len(),
{
    if samples.len() == 0 {
        seq![]
    } else {
        let s = samples.last();
        sample_moves(samples.drop_last(), items, target) + match sample_owner(s, items, 0) {
            Some(i) => seq![
                (
                    s.path@,
                    path_join(path_join(sample_home(items[i].target.full_path@, target), "Sample"@), s.filename@),
                ),
            ],
            None => seq![],
        }
    }
}

fn components_exec(p: &Vec<char>) -> (r: Vec<Vec<char>>)
    ensures
        r@.map_values(|c: Vec<char>| c@) == components(p@),
{
    let parts = split_on_slash(p);
    let ghost all = parts@.map_values(|c: Vec<char>| c@);
    let ghost f = |c: Seq<char>| c.len() > 0 && c != seq!['.'];
    assert(all =~= split_slash(p@));
    let mut out: Vec<Vec<char>> = Vec::new();
    let mut i: usize = 0;
    proof {
        reveal(Seq::filter);
        assert(all.take(0) =~= Seq::<Seq<char>>::empty());
    }
    while i < parts.len()
        invariant
            i <= parts@.len(),
            all == parts@.map_values(|c: Vec<char>| c@),
            f == (|c: Seq<char>| c.len() > 0 && c != seq!['.']),
            out@.map_values(|c: Vec<char>| c@) == all.take(i as int).filter(f),
        decreases parts@.len() - i,
    {
        proof {
            crate::engine::indexer::lemma_filter_step(all, f, i as int);
        }
        let c = &parts[i];
        let dot = c.len() == 1 && c[0] == '.';
        proof {
            if c@.len() == 1 {
                assert(dot == (c@ == seq!['.'])) by {
                    if c@[0] == '.' {
                        assert(c@ =~= seq!['.']);
                    }
                }
            } else {
                assert(c@ != seq!['.']);
            }
        }
        if c.len() > 0 && !dot {
            let ghost before = out@;
            assert(c@.subrange(0, c@.len() as int) =~= c@);
            assert(all[i as int] == c@);
            out.push(crate::utils::text::slice(c, 0, c.len()));
            assert(out@.map_values(|c: Vec<char>| c@) =~= before.map_values(|c: Vec<char>| c@).push(all[i as int]));
        }
        i = i + 1;
    }
    assert(all.take(all.len() as int) =~= all);
    out
}

fn path_starts_with_exec(p: &Vec<char>, base: &Vec<char>) -> (r: bool)
    ensures
        r == path_starts_with(p@, base@),
{
    let slash = chars_of("/");
    if starts_with(p, &slash) != starts_with(base, &slash) {
        return false;
    }
    let a = components_exec(p);
    let b = components_exec(base);
    let ghost av = a@.map_values(|c: Vec<char>| c@);
    let ghost bv = b@.map_values(|c: Vec<char>| c@);
    if b.len() > a.len() {
        return false;
    }
    let mut i: usize = 0;
    while i < b.len()
        invariant
            i <= b@.len() <= a@.len(),
            av == a@.map_values(|c: Vec<char>| c@),
            bv == b@.map_values(|c: Vec<char>| c@),
            av == components(p@),
            bv == components(base@),
            starts_with_seq(p@, "/"@) == starts_with_seq(base@, "/"@),
            forall|k: int| 0 <= k < i ==> av[k] == bv[k],
        decreases b@.len() - i,
    {
        if !seq_eq(&a[i], &b[i]) {
            assert(av.subrange(0, bv.len() as int)[i as int] != bv[i as int]);
            return false;
        }
        i = i + 1;
    }
    assert(av.subrange(0, bv.len() as int) =~= bv);
    true
}

fn find_owner(s: &VideoFile, items: &Vec<PlanItem>) -> (r: Option<usize>)
    ensures
        match r {
            Some(k) => sample_owner(*s, items@, 0) == Some(k as int) && k < items@.len(),
            None => sample_owner(*s, items@, 0) is None,
        },
{
    let sp = chars_of(s.parent_dir.as_str());
    let mut j: usize = 0;
    while j < items.len()
        invariant
            j <= items@.len(),
            sp@ == s.parent_dir@,
            sample_owner(*s, items@, 0) == sample_owner(*s, items@, j as int),
        decreases items@.len() - j,
    {
        let ip = chars_of(items[j].source.parent_dir.as_str());
        if seq_eq(&sp, &ip) || path_starts_with_exec(&sp, &ip) {
            return Some(j);
        }
        j = j + 1;
    }
    None
}

/// Place the sample files: each goes to a `Sample` folder beside the target
/// file of the first item it belongs to (whose source folder is the
/// sample's folder or holds it), inside that item's own folder.
pub fn process_samples(samples: &Vec<VideoFile>, items: &Vec<PlanItem>, target: &str) -> (r: Vec<SampleItem>)
    ensures
        r@.map_values(|x: SampleItem| (x.source@, x.target@)) == sample_moves(samples@, items@, target@),
{
    let mut out: Vec<SampleItem> = Vec::new();
    let mut i: usize = 0;
    while i < samples.len()
        invariant
            i <= samples@.len(),
            out@.map_values(|x: SampleItem| (x.source@, x.target@)) == sample_moves(
                samples@.take(i as int),
                items@,
                target@,
            ),
        decreases samples@.len() - i,
    {
        assert(samples@.take(i + 1).drop_last() =~= samples@.take(i as int));
        let s = &samples[i];
        let owner = find_owner(s, items);
        let ghost before = out@;
        match owner {
            Some(k) => {
                let item = &items[k];
                let home: String = match parent_path_exec(&chars_of(item.target.full_path.as_str())) {
                    Some(d) => string_of(&d),
                    None => target.to_string(),
                };
                let b = join_path(home.as_str(), "Sample");
                let t = join_path(b.as_str(), s.filename.as_str());
                out.push(SampleItem { source: s.path.clone(), target: t });
            },
            None => {},
        }
        assert(out@.map_values(|x: SampleItem| (x.source@, x.target@)) =~= sample_moves(
            samples@.take(i + 1),
            items@,
            target@,
        ));
        i = i + 1;
    }
    assert(samples@.take(samples@.len() as int) =~= samples@);
    out
}

// ------------------------------------------------------------ grouping

/// Index of the group with key `k` at or after `from`.
pub open spec fn group_index(gs: Seq<(Seq<char>, Seq<usize>)>, k: Seq<char>, from: int) -> Option<int>
    decreases gs.len() - from,
{
    if from < 0 || from >= gs.len() {
        None
    } else if gs[from].0 == k {
        Some(from)
    } else {
        group_index(gs, k, from + 1)
    }
}

/// Videos grouped by the folder they sit in: the folders in order of first
/// appearance, each with the indices of its videos in order.
pub open spec fn groups_of(videos: Seq<VideoFile>) -> Seq<(Seq<char>, Seq<usize>)>
    decreases videos.len(),
{
    if videos.len() == 0 {
        seq![]
    } else {
        let g = groups_of(videos.drop_last());
        let k = videos.last().parent_dir@;
        let i = (videos.len() - 1) as usize;
        match group_index(g, k, 0) {
            Some(j) => g.update(j, (k, g[j].1.push(i))),
            None => g.push((k, seq![i])),
        }
    }
}

proof fn lemma_group_index(gs: Seq<(Seq<char>, Seq<usize>)>, k: Seq<char>, from: int)
    ensures
        group_index(gs, k, from) matches Some(j) ==> from <= j < gs.len() && gs[j].0 == k,
    decreases gs.len() - from,
{
    if 0 <= from < gs.len() && gs[from].0 != k {
        lemma_group_index(gs, k, from + 1);
    }
}

pub open spec fn group_views(gs: Seq<(String, Vec<usize>)>) -> Seq<(Seq<char>, Seq<usize>)> {
    gs.map_values(|g: (String, Vec<usize>)| (g.0@, g.1@))
}

fn find_group(groups: &Vec<(String, Vec<usize>)>, key: &String) -> (r: Option<usize>)
    ensures
        match r {
            Some(j) => group_index(group_views(groups@), key@, 0) == Some(j as int) && j < groups@.len(),
            None => group_index(group_views(groups@), key@, 0) is None,
        },
{
    let ghost gv = group_views(groups@);
    let mut g: usize = 0;
    while g < groups.len()
        invariant
            g <= groups@.len(),
            gv == group_views(groups@),
            group_index(gv, key@, 0) == group_index(gv, key@, g as int),
        decreases groups@.len() - g,
    {
        if groups[g].0 == *key {
            return Some(g);
        }
        g = g + 1;
    }
    None
}

/// Group videos by their immediate parent directory; each directory holds
/// one TV show or season.
pub fn group_by_parent(videos: &Vec<VideoFile>) -> (r: Vec<(String, Vec<usize>)>)
    ensures
        group_views(r@) == groups_of(videos@),
{
    let mut groups: Vec<(String, Vec<usize>)> = Vec::new();
    let mut i: usize = 0;
    assert(group_views(groups@) =~= groups_of(videos@.take(0)));
    while i < videos.len()
        invariant
            i <= videos@.len(),
            group_views(groups@) == groups_of(videos@.take(i as int)),
        decreases videos@.len() - i,
    {
        let ghost gv = group_views(groups@);
        assert(videos@.take(i + 1).drop_last() =~= videos@.take(i as int));
        let key = &videos[i].parent_dir;
        match find_group(&groups, key) {
            Some(j) => {
                proof {
                    lemma_group_index(gv, key@, 0);
                }
                let (k, mut list) = groups.remove(j);
                list.push(i);
                groups.insert(j, (k, list));
                assert(group_views(groups@) =~= gv.update(j as int, (key@, gv[j as int].1.push(i))));
            },
            None => {
                let mut list: Vec<usize> = Vec::new();
                list.push(i);
                groups.push((key.clone(), list));
                assert(group_views(groups@) =~= gv.push((key@, seq![i])));
            },
        }
        i = i + 1;
    }
    assert(videos@.take(videos@.len() as int) =~= videos@);
    groups
}

// ------------------------------------------------------------ plan files

/// The plan file name for a time stamp (`%Y%m%d_%H%M%S`): `plan_<stamp>.json`.
pub open spec fn plan_file_name(stamp: Seq<char>) -> Seq<char> {
    "plan_"@ + stamp + ".json"@
}

/// The directory a plan goes to: the target when given, else the source.
pub open spec fn plan_base(source: Seq<char>, target: Option<&str>) -> Seq<char> {
    match target {
        Some(t) => t@,
        None => source,
    }
}

/// The plan path for a time stamp: in the target directory when given,
/// else in the source directory.
pub fn plan_path_at(source: &str, target: Option<&str>, stamp: &str) -> (r: String)
    ensures
        r@ == path_join(
            match target {
                Some(t) => t@,
                None => source@,
            },
            plan_file_name(stamp@),
        ),
{
    let mut name = chars_of("plan_");
    push_str(&mut name, stamp);
    push_str(&mut name, ".json");
    let file = string_of(&name);
    let base: &str = match target {
        Some(t) => t,
        None => source,
    };
    join_path(base, file.as_str())
}

/// Get the default plan output path, stamped with the present time in UTC
/// as `%Y%m%d_%H%M%S` (see `stamp_text`); an error when the clock cannot be
/// read.
pub fn default_plan_path(source: &str, target: Option<&str>) -> (r: Result<String, Error>)
    ensures
        r matches Ok(p) ==> exists|t: UtcTime|
            #[trigger] utc_time_valid(t) && p@ == path_join(plan_base(source@, target), plan_file_name(stamp_text(t))),
        r matches Err(e) ==> e matches Error::Other(m) && m@ == "system time before Unix epoch"@,
{
    match utc_now() {
        Some(t) => {
            let stamp = stamp_of(&t);
            Ok(plan_path_at(source, target, stamp.as_str()))
        },
        None => Err(Error::Other("system time before Unix epoch".to_string())),
    }
}

// ------------------------------------------------------------ episodes

/// For a TV show already identified in this folder, the parse of a file
/// is read from its name alone: the show's titles and year with the
/// season and episode found in the filename, or nothing without an
/// episode number.
pub fn parse_from_cache(show: &TvShowMetadata, filename: &str) -> (r: Option<ParsedFilename>)
    ensures
        match r {
            Some(p) => {
                &&& episode_from_filename(filename@).1 is Some
                &&& (opt_nat(p.season), opt_nat(p.episode)) == episode_from_filename(filename@)
                &&& text_of(p.title) == Some(show.name@)
                &&& text_of(p.original_title) == Some(show.original_name@)
                &&& p.year == Some(show.year)
                &&& p.confidence == 1000
                &&& text_of(p.raw_response) == Some("regex_extracted"@)
            },
            None => episode_from_filename(filename@).1 is None,
        },
{
    let (season, episode) = extract_episode_from_filename(filename);
    if episode.is_none() {
        return None;
    }
    Some(ParsedFilename {
        title: Some(show.name.clone()),
        original_title: Some(show.original_name.clone()),
        year: Some(show.year),
        season,
        episode,
        confidence: 1000,
        raw_response: Some("regex_extracted".to_string()),
    })
}

/// The episode to use when TMDB has no details for it: named `Episode N`.
pub fn placeholder_episode(season: u16, episode: u16) -> (r: EpisodeMetadata)
    ensures
        r.season_number == season,
        r.episode_number == episode,
        r.name@ == "Episode "@ + decimal(episode as nat),
        r.original_name is None,
        r.air_date is None,
        r.overview is None,
{
    let mut name = chars_of("Episode ");
    let d = decimal_chars(episode as u64);
    push_all(&mut name, &d);
    EpisodeMetadata {
        season_number: season,
        episode_number: episode,
        name: string_of(&name),
        original_name: None,
        air_date: None,
        overview: None,
    }
}

// ------------------------------------------------------------ planner

/// Plan generator: its configuration and the filename parser.
#[derive(Debug, Clone)]
pub struct Planner {
    pub config: PlannerConfig,
    pub parser: FilenameParser,
}

impl Planner {
    /// Create a new planner with default configuration.
    pub fn new() -> (r: Self)
        ensures
            r.config.min_confidence == 500,
            r.config.download_posters,
            r.config.generate_nfo,
            r.config.poster_size@ == "w500"@,
    {
        Planner { config: PlannerConfig::default(), parser: FilenameParser::new() }
    }

    /// Create a new planner with custom configuration.
    pub fn with_config(config: PlannerConfig) -> (r: Self)
        ensures
            r.config == config,
    {
        Planner { config, parser: FilenameParser::new() }
    }
}

// ------------------------------------------------------------ commands

/// The default target of a plan: `<name>_organized` beside the source
/// directory (`videos` when the source has no name).
pub open spec fn default_target(source: Seq<char>) -> Seq<char> {
    let name = match file_name(source) {
        Some(n) => n,
        None => "videos"@,
    };
    let organized = name + "_organized"@;
    match parent_path(source) {
        Some(p) => path_join(p, organized),
        None => organized,
    }
}

/// The default target directory of a plan.
pub fn default_target_dir(source: &str) -> (r: String)
    ensures
        r@ == default_target(source@),
{
    let sv = chars_of(source);
    let mut name: Vec<char> = match file_name_of(&sv) {
        Some(n) => n,
        None => chars_of("videos"),
    };
    push_str(&mut name, "_organized");
    let organized = string_of(&name);
    match parent_path_exec(&sv) {
        Some(p) => join_path(string_of(&p).as_str(), organized.as_str()),
        None => organized,
    }
}

/// A file passes verification when its resolution and video codec could be
/// read.
pub fn verify_result(metadata: Result<VideoMetadata, String>) -> (r: Result<(), String>)
    ensures
        match metadata {
            Ok(m) => if m.resolution@ != "unknown"@ && m.video_codec@ != "unknown"@ {
                r is Ok
            } else {
                r matches Err(e) && e@ == "Could not extract video/audio streams"@
            },
            Err(e) => r == Err::<(), String>(e),
        },
{
    match metadata {
        Ok(m) => {
            let res = chars_of(m.resolution.as_str());
            let codec = chars_of(m.video_codec.as_str());
            let unknown = chars_of("unknown");
            if !seq_eq(&res, &unknown) && !seq_eq(&codec, &unknown) {
                Ok(())
            } else {
                Err("Could not extract video/audio streams".to_string())
            }
        },
        Err(e) => Err(e),
    }
}

} // verus!
