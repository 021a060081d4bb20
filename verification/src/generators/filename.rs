//! Filename generator for organized movies and episodes.

use vstd::prelude::*;
use crate::models::media::{EpisodeMetadata, MovieMetadata, TvShowMetadata, VideoMetadata};
use crate::utils::text::{
    chars_of, decimal, decimal2, decimal2_chars, decimal_chars, push_all, push_str, seq_eq,
    str_lowercase, string_of, to_lower, trim, trim_chars,
};

verus! {

/// Characters that cannot appear in file names and are replaced by `_`.
pub open spec fn is_reserved(c: char) -> bool {
    c == '/' || c == '\\' || c == ':' || c == '*' || c == '?' || c == '"' || c == '<' || c
        == '>' || c == '|'
}

pub open spec fn sanitized(s: Seq<char>) -> Seq<char> {
    s.map_values(|c: char| if is_reserved(c) { '_' } else { c })
}

/// Key under which two titles count as the same: trimmed and lowercased.
pub open spec fn title_key(s: Seq<char>) -> Seq<char> {
    str_lowercase(trim(s))
}

pub open spec fn bracketed(s: Seq<char>) -> Seq<char> {
    seq!['['] + s + seq![']']
}

/// `-resolution-format-codec-NNbit-audio-channels`.
pub open spec fn video_suffix(v: VideoMetadata) -> Seq<char> {
    "-"@ + v.resolution@ + "-"@ + v.format@ + "-"@ + v.video_codec@ + "-"@ + decimal(
        v.bit_depth as nat,
    ) + "bit"@ + "-"@ + v.audio_codec@ + "-"@ + v.audio_channels@
}

/// Only the localized title is shown when the work is Chinese or both titles agree.
pub open spec fn single_title(language: Seq<char>, original: Seq<char>, localized: Seq<char>) -> bool {
    language == "zh"@ || title_key(original) == title_key(localized)
}

/// `[original][title](edition)(year)-res-format-codec-NNbit-audio-channels.ext`
pub open spec fn movie_filename(
    movie: MovieMetadata,
    video: VideoMetadata,
    edition: Option<Seq<char>>,
    extension: Seq<char>,
) -> Seq<char> {
    let titles = if single_title(movie.original_language@, movie.original_title@, movie.title@) {
        bracketed(sanitized(movie.title@))
    } else {
        bracketed(sanitized(movie.original_title@)) + bracketed(sanitized(movie.title@))
    };
    let ed = match edition {
        Some(e) => "("@ + e + ")"@,
        None => Seq::<char>::empty(),
    };
    titles + ed + "("@ + decimal(movie.year as nat) + ")"@ + video_suffix(video) + "."@ + extension
}

/// The show title as it opens an episode filename.
pub open spec fn show_title(show: TvShowMetadata) -> Seq<char> {
    if single_title(show.original_language@, show.original_name@, show.name@) {
        sanitized(show.name@)
    } else {
        sanitized(show.original_name@)
    }
}

/// The `-[original]` part, present when the episode has a different original name.
pub open spec fn episode_original_part(episode: EpisodeMetadata) -> Seq<char> {
    match episode.original_name {
        Some(o) => if o@ != episode.name@ {
            "-["@ + sanitized(o@) + "]"@
        } else {
            Seq::<char>::empty()
        },
        None => Seq::<char>::empty(),
    }
}

/// `[show]-SxxEyy-[original]-[name]-res-format-codec-NNbit-audio-channels.ext`
pub open spec fn episode_filename(
    show: TvShowMetadata,
    episode: EpisodeMetadata,
    video: VideoMetadata,
    extension: Seq<char>,
) -> Seq<char> {
    bracketed(show_title(show)) + "-S"@ + decimal2(episode.season_number as nat) + "E"@
        + decimal2(episode.episode_number as nat) + episode_original_part(episode) + "-["@
        + sanitized(episode.name@) + "]"@ + video_suffix(video) + "."@ + extension
}

/// Sanitize a string for use in filenames.
fn sanitize_filename(s: &str) -> (r: Vec<char>)
    ensures
        r@ == sanitized(s@),
{
    let cs = chars_of(s);
    let mut r: Vec<char> = Vec::new();
    let mut i: usize = 0;
    while i < cs.len()
        invariant
            i <= cs.len(),
            r@.len() == i,
            forall|k: int| 0 <= k < i ==> r@[k] == (if is_reserved(#[trigger] cs@[k]) {
                '_'
            } else {
                cs@[k]
            }),
        decreases cs.len() - i,
    {
        let c = cs[i];
        let d = if c == '/' || c == '\\' || c == ':' || c == '*' || c == '?' || c == '"' || c == '<'
            || c == '>' || c == '|' {
            '_'
        } else {
            c
        };
        r.push(d);
        i = i + 1;
    }
    assert(r@ =~= sanitized(s@));
    r
}

/// Normalize title for comparison.
fn normalize_title(s: &str) -> (r: Vec<char>)
    ensures
        r@ == title_key(s@),
{
    let cs = chars_of(s);
    let t = trim_chars(&cs);
    to_lower(&t)
}

fn uses_single_title(language: &str, original: &str, localized: &str) -> (r: bool)
    ensures
        r == single_title(language@, original@, localized@),
{
    let lang = chars_of(language);
    let zh = chars_of("zh");
    let is_chinese = seq_eq(&lang, &zh);
    let a = normalize_title(original);
    let b = normalize_title(localized);
    is_chinese || seq_eq(&a, &b)
}

fn push_bracketed(v: &mut Vec<char>, s: &Vec<char>)
    ensures
        final(v)@ == old(v)@ + bracketed(s@),
{
    v.push('[');
    push_all(v, s);
    v.push(']');
    assert(v@ =~= old(v)@ + bracketed(s@));
}

fn push_video_suffix(v: &mut Vec<char>, video: &VideoMetadata)
    ensures
        final(v)@ == old(v)@ + video_suffix(*video),
{
    push_str(v, "-");
    push_str(v, video.resolution.as_str());
    push_str(v, "-");
    push_str(v, video.format.as_str());
    push_str(v, "-");
    push_str(v, video.video_codec.as_str());
    push_str(v, "-");
    let bits = decimal_chars(video.bit_depth as u64);
    push_all(v, &bits);
    push_str(v, "bit");
    push_str(v, "-");
    push_str(v, video.audio_codec.as_str());
    push_str(v, "-");
    push_str(v, video.audio_channels.as_str());
    assert(v@ =~= old(v)@ + video_suffix(*video));
}

/// Generate movie filename.
pub fn generate_movie_filename(
    movie: &MovieMetadata,
    video: &VideoMetadata,
    edition: Option<&str>,
    extension: &str,
) -> (r: String)
    ensures
        r@ == movie_filename(
            *movie,
            *video,
            match edition {
                Some(e) => Some(e@),
                None => None,
            },
            extension@,
        ),
{
    let mut v: Vec<char> = Vec::new();
    if uses_single_title(
        movie.original_language.as_str(),
        movie.original_title.as_str(),
        movie.title.as_str(),
    ) {
        let t = sanitize_filename(movie.title.as_str());
        push_bracketed(&mut v, &t);
    } else {
        let o = sanitize_filename(movie.original_title.as_str());
        push_bracketed(&mut v, &o);
        let t = sanitize_filename(movie.title.as_str());
        push_bracketed(&mut v, &t);
    }
    let ghost titles = v@;
    match edition {
        Some(ed) => {
            push_str(&mut v, "(");
            push_str(&mut v, ed);
            push_str(&mut v, ")");
        },
        None => {},
    }
    push_str(&mut v, "(");
    let y = decimal_chars(movie.year as u64);
    push_all(&mut v, &y);
    push_str(&mut v, ")");
    push_video_suffix(&mut v, video);
    push_str(&mut v, ".");
    push_str(&mut v, extension);
    let ghost ed = match edition {
        Some(e) => Some(e@),
        None => None,
    };
    assert(v@ =~= movie_filename(*movie, *video, ed, extension@));
    string_of(&v)
}

/// Generate TV episode filename.
pub fn generate_episode_filename(
    show: &TvShowMetadata,
    episode: &EpisodeMetadata,
    video: &VideoMetadata,
    extension: &str,
) -> (r: String)
    ensures
        r@ == episode_filename(*show, *episode, *video, extension@),
{
    let mut v: Vec<char> = Vec::new();
    if uses_single_title(
        show.original_language.as_str(),
        show.original_name.as_str(),
        show.name.as_str(),
    ) {
        let t = sanitize_filename(show.name.as_str());
        push_bracketed(&mut v, &t);
    } else {
        let t = sanitize_filename(show.original_name.as_str());
        push_bracketed(&mut v, &t);
    }
    push_str(&mut v, "-S");
    let s = decimal2_chars(episode.season_number as u64);
    push_all(&mut v, &s);
    push_str(&mut v, "E");
    let e = decimal2_chars(episode.episode_number as u64);
    push_all(&mut v, &e);
    let ghost before_orig = v@;
    match &episode.original_name {
        Some(orig) => {
            if *orig != episode.name {
                push_str(&mut v, "-[");
                let o = sanitize_filename(orig.as_str());
                push_all(&mut v, &o);
                push_str(&mut v, "]");
            }
        },
        None => {},
    }
    assert(v@ =~= before_orig + episode_original_part(*episode));
    push_str(&mut v, "-[");
    let n = sanitize_filename(episode.name.as_str());
    push_all(&mut v, &n);
    push_str(&mut v, "]");
    push_video_suffix(&mut v, video);
    push_str(&mut v, ".");
    push_str(&mut v, extension);
    assert(v@ =~= episode_filename(*show, *episode, *video, extension@));
    string_of(&v)
}

} // verus!
