//! Planning one video, step by step. The model that reads filenames, TMDB
//! and the stream probe are reached by the caller: each step here takes
//! what the last call returned and says which call to make next, until the
//! video is identified or given up. The videos of one directory are then
//! gathered into plan items and unknown files.

use vstd::prelude::*;
use crate::engine::clock::{new_uuid, now_rfc3339, rfc3339_text, utc_time_valid, uuid_v4_text, UtcTime};
use crate::engine::parser::{episode_from_filename, extract_episode_from_filename, opt_nat, FilenameParser, ParsedFilename};
use crate::engine::planner::{
    build_parse_input, country_choosable, duplicate_message, found_episode, get_meaningful_folder_name, generate_target_info,
    has_duplicate_target, meaningful_folder, moves_of, parse_from_cache, parse_input, placeholder_episode,
    target_ok, text_of, validate_no_duplicate_targets, PlannerConfig,
};
use crate::error::Error;
use crate::models::media::{EpisodeMetadata, MediaType, MovieMetadata, TvShowMetadata, VideoMetadata};
use crate::models::plan::{ParsedInfo, Plan, PlanItem, PlanItemStatus, SampleItem, UnknownItem, VideoFile};
use crate::utils::text::decimal;

verus! {

/// The work a video was matched to.
#[derive(Debug)]
pub enum Work {
    Movie(MovieMetadata),
    /// The TV show already identified for the video's directory.
    CachedShow,
    Show(TvShowMetadata),
}

/// Episode details as TMDB gives them.
#[derive(Debug)]
pub struct EpisodeDetails {
    pub name: String,
    pub air_date: Option<String>,
    pub overview: Option<String>,
}

/// Where the planning of one video stands.
#[derive(Debug)]
pub enum VideoState {
    /// Nothing done yet.
    Start,
    /// Waiting for the model's reading of the filename.
    AwaitParse,
    /// Waiting for the TMDB movie search of `parsed`.
    AwaitMovie { parsed: ParsedFilename },
    /// Waiting for the TMDB TV show search of `parsed`.
    AwaitShow { parsed: ParsedFilename },
    /// Waiting for the details of one episode of the work.
    AwaitEpisode { parsed: ParsedFilename, work: Work, season: u16, episode: u16 },
    /// Waiting for the technical metadata of the video.
    AwaitProbe { parsed: ParsedFilename, work: Work, episode: Option<EpisodeMetadata> },
    /// Everything is known: the plan item can be built.
    Ready { parsed: ParsedFilename, work: Work, episode: Option<EpisodeMetadata>, video: VideoMetadata },
    /// The video could not be identified.
    Unidentified,
}

/// What the caller hands back: the result of the call it was asked for.
#[derive(Debug)]
pub enum VideoEvent {
    /// Begin with a video.
    Begin,
    /// The model's reading of the filename.
    Parsed(ParsedFilename),
    /// The best TMDB movie match, if any.
    MovieFound(Option<MovieMetadata>),
    /// The best TMDB TV show match and the episode found with it, if any.
    ShowFound(Option<TvShowMetadata>, Option<EpisodeMetadata>),
    /// The episode's details, or `None` when TMDB could not give them.
    EpisodeFound(Option<EpisodeDetails>),
    /// The video's technical metadata.
    Probed(VideoMetadata),
}

/// The call to make next.
#[derive(Debug)]
pub enum VideoAction {
    /// Ask the model to read this text (filename, with directory context).
    ParseFilename { input: String },
    /// Search TMDB for the movie of the parsed filename.
    LookUpMovie,
    /// Search TMDB for the TV show of the parsed filename, with the
    /// directory's name as a fallback query.
    LookUpShow { folder: Option<String> },
    /// Fetch the details of one episode of a TMDB TV show.
    FetchEpisode { tmdb_id: u64, season: u16, episode: u16 },
    /// Read the technical metadata of the video file.
    ProbeVideo,
    /// Build the plan item from the state.
    Build,
    /// Give the video up as unidentified.
    GiveUp,
}

/// Whether `event` answers the call that `state` waits for.
pub open spec fn answers(state: VideoState, event: VideoEvent) -> bool {
    match state {
        VideoState::Start => event is Begin,
        VideoState::AwaitParse => event is Parsed,
        VideoState::AwaitMovie { .. } => event is MovieFound,
        VideoState::AwaitShow { .. } => event is ShowFound,
        VideoState::AwaitEpisode { .. } => event is EpisodeFound,
        VideoState::AwaitProbe { .. } => event is Probed,
        _ => false,
    }
}

/// The parsed filename that the cached-show path builds: title, original
/// title and year of the show, the episode numbers read from the filename.
pub open spec fn from_cache(p: ParsedFilename, show: TvShowMetadata, filename: Seq<char>) -> bool {
    &&& (opt_nat(p.season), opt_nat(p.episode)) == episode_from_filename(filename)
    &&& text_of(p.title) == Some(show.name@)
    &&& text_of(p.original_title) == Some(show.original_name@)
    &&& p.year == Some(show.year)
    &&& p.confidence == 1000
    &&& text_of(p.raw_response) == Some("regex_extracted"@)
}

/// The stand-in for an episode whose details are not known.
pub open spec fn is_placeholder(e: EpisodeMetadata, season: u16, episode: u16) -> bool {
    &&& e.season_number == season
    &&& e.episode_number == episode
    &&& e.name@ == "Episode "@ + decimal(episode as nat)
    &&& e.original_name is None
    &&& e.air_date is None
    &&& e.overview is None
}

/// The episode built from TMDB's details.
pub open spec fn from_details(e: EpisodeMetadata, season: u16, episode: u16, d: EpisodeDetails) -> bool {
    &&& e.season_number == season
    &&& e.episode_number == episode
    &&& e.name == d.name
    &&& e.original_name is None
    &&& e.air_date == d.air_date
    &&& e.overview == d.overview
}

/// Once the TV show is known with the parsed filename `p` and no episode:
/// when both numbers are known, fetch that episode (or, with no TMDB
/// access, `placeholder` says whether to stand in for it); else go on
/// without an episode.
pub open spec fn show_continues(
    r: (VideoState, VideoAction),
    p: ParsedFilename,
    work: Work,
    tmdb_id: u64,
    season: Option<u16>,
    episode: Option<u16>,
    has_tmdb: bool,
    placeholder: bool,
) -> bool {
    if season is Some && episode is Some && has_tmdb {
        &&& r.0 == VideoState::AwaitEpisode { parsed: p, work, season: season->0, episode: episode->0 }
        &&& r.1 == VideoAction::FetchEpisode { tmdb_id, season: season->0, episode: episode->0 }
    } else if season is Some && episode is Some && placeholder {
        &&& r.0 matches VideoState::AwaitProbe { parsed, work: w, episode: Some(e) }
        &&& parsed == p && w == work && is_placeholder(e, season->0, episode->0)
        &&& r.1 is ProbeVideo
    } else {
        &&& r.0 == VideoState::AwaitProbe { parsed: p, work, episode: None }
        &&& r.1 is ProbeVideo
    }
}

/// The next step of planning `video`. With a cached TV show (a previous
/// video of the same directory was identified), the episode numbers are
/// read from the filename and the model is not asked; otherwise the model
/// reads the filename and a confident reading is searched on TMDB. A TV
/// show found without an episode gets the numbers read from the filename,
/// and their details when TMDB can be reached; a failed detail fetch, or
/// a cached show with no TMDB access, stands in a placeholder episode.
pub fn video_step(
    parser: &FilenameParser,
    video: &VideoFile,
    media_type: MediaType,
    cached: Option<&TvShowMetadata>,
    has_tmdb: bool,
    state: VideoState,
    event: VideoEvent,
) -> (r: (VideoState, VideoAction))
    requires
        answers(state, event),
    ensures
        state is Start && media_type == MediaType::TvShows && cached is Some ==> (r.1 is GiveUp
            || r.1 is FetchEpisode || r.1 is ProbeVideo),
        state is Start && media_type == MediaType::TvShows && cached is Some ==> ({
            let (fs, fe) = episode_from_filename(video.filename@);
            if fe is None {
                r.0 is Unidentified && r.1 is GiveUp
            } else {
                exists|p: ParsedFilename|
                    #![trigger from_cache(p, *cached->0, video.filename@)]
                    from_cache(p, *cached->0, video.filename@) && show_continues(
                        r,
                        p,
                        Work::CachedShow,
                        cached->0.tmdb_id,
                        p.season,
                        p.episode,
                        has_tmdb,
                        true,
                    )
            }
        }),
        state is Start && !(media_type == MediaType::TvShows && cached is Some) ==> (r.0
            is AwaitParse && (r.1 matches VideoAction::ParseFilename { input } && input@ == parse_input(
            video.filename@,
            video.parent_dir@,
        ))),
        state is AwaitParse ==> (event matches VideoEvent::Parsed(p) && if !(p.confidence
            >= parser.config.min_confidence && (p.original_title is Some || p.title is Some)) {
            r.0 is Unidentified && r.1 is GiveUp
        } else if media_type == MediaType::Movies {
            r.0 == VideoState::AwaitMovie { parsed: p } && r.1 is LookUpMovie
        } else {
            r.0 == VideoState::AwaitShow { parsed: p } && (r.1 matches VideoAction::LookUpShow { folder }
                && text_of(folder) == meaningful_folder(video.parent_dir@))
        }),
        state matches VideoState::AwaitMovie { parsed } ==> (event matches VideoEvent::MovieFound(m)
            && match m {
            None => r.0 is Unidentified && r.1 is GiveUp,
            Some(mv) => r.0 == VideoState::AwaitProbe { parsed, work: Work::Movie(mv), episode: None }
                && r.1 is ProbeVideo,
        }),
        state matches VideoState::AwaitShow { parsed } ==> (event matches VideoEvent::ShowFound(s, e)
            && match s {
            None => r.0 is Unidentified && r.1 is GiveUp,
            Some(show) => match e {
                Some(ep) => r.0 == VideoState::AwaitProbe {
                    parsed,
                    work: Work::Show(show),
                    episode: Some(ep),
                } && r.1 is ProbeVideo,
                None => {
                    let (fs, fe) = episode_from_filename(video.filename@);
                    exists|season: Option<u16>, episode: Option<u16>|
                        #![trigger opt_nat(season), opt_nat(episode)]
                        opt_nat(season) == fs && opt_nat(episode) == fe && show_continues(
                            r,
                            parsed,
                            Work::Show(show),
                            show.tmdb_id,
                            season,
                            episode,
                            has_tmdb,
                            false,
                        )
                },
            },
        }),
        state matches VideoState::AwaitEpisode { parsed, work, season, episode } ==> (
        event matches VideoEvent::EpisodeFound(d) && (r.1 is ProbeVideo
            && (r.0 matches VideoState::AwaitProbe { parsed: p, work: w, episode: Some(e) } && p
            == parsed && w == work && match d {
            Some(details) => from_details(e, season, episode, details),
            None => is_placeholder(e, season, episode),
        }))),
        state matches VideoState::AwaitProbe { parsed, work, episode } ==> (event matches VideoEvent::Probed(
            v,
        ) && r.0 == VideoState::Ready { parsed, work, episode, video: v } && r.1 is Build),
{
    match state {
        VideoState::Start => {
            let cached_show = if media_type == MediaType::TvShows {
                cached
            } else {
                None
            };
            match cached_show {
                Some(show) => match parse_from_cache(show, video.filename.as_str()) {
                    None => (VideoState::Unidentified, VideoAction::GiveUp),
                    Some(p) => {
                        let season = p.season;
                        let episode = p.episode;
                        let r = show_next(p, Work::CachedShow, show.tmdb_id, season, episode, has_tmdb, true);
                        proof {
                            assert(from_cache(p, *cached->0, video.filename@));
                        }
                        r
                    },
                },
                None => (
                    VideoState::AwaitParse,
                    VideoAction::ParseFilename { input: build_parse_input(video) },
                ),
            }
        },
        VideoState::AwaitParse => match event {
            VideoEvent::Parsed(p) => {
                if !parser.is_valid(&p) {
                    (VideoState::Unidentified, VideoAction::GiveUp)
                } else if media_type == MediaType::Movies {
                    (VideoState::AwaitMovie { parsed: p }, VideoAction::LookUpMovie)
                } else {
                    let folder = get_meaningful_folder_name(video.parent_dir.as_str());
                    (VideoState::AwaitShow { parsed: p }, VideoAction::LookUpShow { folder })
                }
            },
            _ => (VideoState::Unidentified, VideoAction::GiveUp),
        },
        VideoState::AwaitMovie { parsed } => match event {
            VideoEvent::MovieFound(Some(m)) => (
                VideoState::AwaitProbe { parsed, work: Work::Movie(m), episode: None },
                VideoAction::ProbeVideo,
            ),
            _ => (VideoState::Unidentified, VideoAction::GiveUp),
        },
        VideoState::AwaitShow { parsed } => match event {
            VideoEvent::ShowFound(Some(show), Some(ep)) => (
                VideoState::AwaitProbe { parsed, work: Work::Show(show), episode: Some(ep) },
                VideoAction::ProbeVideo,
            ),
            VideoEvent::ShowFound(Some(show), None) => {
                let (season, episode) = extract_episode_from_filename(video.filename.as_str());
                let tmdb_id = show.tmdb_id;
                show_next(parsed, Work::Show(show), tmdb_id, season, episode, has_tmdb, false)
            },
            _ => (VideoState::Unidentified, VideoAction::GiveUp),
        },
        VideoState::AwaitEpisode { parsed, work, season, episode } => match event {
            VideoEvent::EpisodeFound(Some(d)) => {
                let e = EpisodeMetadata {
                    season_number: season,
                    episode_number: episode,
                    name: d.name,
                    original_name: None,
                    air_date: d.air_date,
                    overview: d.overview,
                };
                (VideoState::AwaitProbe { parsed, work, episode: Some(e) }, VideoAction::ProbeVideo)
            },
            _ => {
                let e = placeholder_episode(season, episode);
                (VideoState::AwaitProbe { parsed, work, episode: Some(e) }, VideoAction::ProbeVideo)
            },
        },
        VideoState::AwaitProbe { parsed, work, episode } => match event {
            VideoEvent::Probed(v) => (
                VideoState::Ready { parsed, work, episode, video: v },
                VideoAction::Build,
            ),
            _ => (VideoState::Unidentified, VideoAction::GiveUp),
        },
        _ => (VideoState::Unidentified, VideoAction::GiveUp),
    }
}

fn show_next(
    p: ParsedFilename,
    work: Work,
    tmdb_id: u64,
    season: Option<u16>,
    episode: Option<u16>,
    has_tmdb: bool,
    placeholder: bool,
) -> (r: (VideoState, VideoAction))
    ensures
        show_continues(r, p, work, tmdb_id, season, episode, has_tmdb, placeholder),
{
    match (season, episode) {
        (Some(s), Some(e)) => {
            if has_tmdb {
                (
                    VideoState::AwaitEpisode { parsed: p, work, season: s, episode: e },
                    VideoAction::FetchEpisode { tmdb_id, season: s, episode: e },
                )
            } else if placeholder {
                let ep = placeholder_episode(s, e);
                (VideoState::AwaitProbe { parsed: p, work, episode: Some(ep) }, VideoAction::ProbeVideo)
            } else {
                (VideoState::AwaitProbe { parsed: p, work, episode: None }, VideoAction::ProbeVideo)
            }
        },
        _ => (VideoState::AwaitProbe { parsed: p, work, episode: None }, VideoAction::ProbeVideo),
    }
}

/// The movie and the TV show (with its episode) that the target naming
/// takes, from the work a video was matched to; `cached` is the show of
/// the video's directory.
pub open spec fn work_split(work: Work, episode: Option<EpisodeMetadata>, cached: Option<TvShowMetadata>) -> (
    Option<MovieMetadata>,
    Option<(TvShowMetadata, Option<EpisodeMetadata>)>,
) {
    match work {
        Work::Movie(m) => (Some(m), None),
        Work::CachedShow => match cached {
            Some(s) => (None, Some((s, episode))),
            None => (None, None),
        },
        Work::Show(s) => (None, Some((s, episode))),
    }
}

/// The movie and the TV show (with its episode) of a matched work.
pub fn split_work(work: Work, episode: Option<EpisodeMetadata>, cached: Option<TvShowMetadata>) -> (r: (
    Option<MovieMetadata>,
    Option<(TvShowMetadata, Option<EpisodeMetadata>)>,
))
    ensures
        r == work_split(work, episode, cached),
{
    match work {
        Work::Movie(m) => (Some(m), None),
        Work::CachedShow => match cached {
            Some(s) => (None, Some((s, episode))),
            None => (None, None),
        },
        Work::Show(s) => (None, Some((s, episode))),
    }
}

/// The TV show of the metadata, if any.
pub open spec fn show_of(t: Option<(TvShowMetadata, Option<EpisodeMetadata>)>) -> Option<TvShowMetadata> {
    match t {
        Some((s, _)) => Some(s),
        None => None,
    }
}

/// The plan item of an identified video, with a fresh id: its parsed
/// filename, metadata, target and operations (see `generate_target_info`).
pub fn build_plan_item(
    config: &PlannerConfig,
    video: VideoFile,
    parsed: ParsedFilename,
    movie: Option<MovieMetadata>,
    tvshow: Option<(TvShowMetadata, Option<EpisodeMetadata>)>,
    metadata: VideoMetadata,
    target: &str,
    media_type: MediaType,
    folder_name: &str,
) -> (r: Result<PlanItem, Error>)
    requires
        country_choosable(movie, tvshow, media_type),
    ensures
        media_type == MediaType::Movies && movie is None ==> (r matches Err(Error::Other(m)) && m@
            == "Missing movie metadata"@),
        media_type == MediaType::TvShows && tvshow is None ==> (r matches Err(Error::Other(m)) && m@
            == "Missing TV show metadata"@),
        (match media_type {
            MediaType::Movies => movie is Some,
            MediaType::TvShows => tvshow is Some,
        }) ==> (r is Ok || (r matches Err(Error::Other(m)) && m@ == "no random bytes for an id"@)),
        r matches Ok(item) ==> ((exists|b: Seq<u8>| b.len() == 16 && item.id@ == #[trigger] uuid_v4_text(b))
            && item.status == PlanItemStatus::Pending && item.source == video
            && item.parsed == (ParsedInfo {
            title: parsed.title,
            original_title: parsed.original_title,
            year: parsed.year,
            confidence: parsed.confidence,
            raw_response: parsed.raw_response,
        }) && item.movie_metadata == movie && item.tvshow_metadata == show_of(tvshow)
            && item.episode_metadata == found_episode(tvshow) && item.video_metadata == metadata
            && target_ok(
            *config,
            video.path@,
            movie,
            tvshow,
            parsed,
            metadata,
            target@,
            media_type,
            folder_name@,
            item.target,
            item.operations@,
        )),
{
    let (info, operations) = match generate_target_info(
        config,
        video.path.as_str(),
        &movie,
        &tvshow,
        &parsed,
        &metadata,
        target,
        media_type,
        folder_name,
    ) {
        Ok(x) => x,
        Err(e) => {
            return Err(e);
        },
    };
    let (tvshow_metadata, episode_metadata) = match tvshow {
        Some((s, e)) => (Some(s), e),
        None => (None, None),
    };
    let id = match new_uuid() {
        Some(id) => id,
        None => return Err(Error::Other("no random bytes for an id".to_string())),
    };
    Ok(PlanItem {
        id,
        status: PlanItemStatus::Pending,
        source: video,
        parsed: ParsedInfo {
            title: parsed.title,
            original_title: parsed.original_title,
            year: parsed.year,
            confidence: parsed.confidence,
            raw_response: parsed.raw_response,
        },
        movie_metadata: movie,
        tvshow_metadata,
        episode_metadata,
        video_metadata: metadata,
        target: info,
        operations,
    })
}

/// How the planning of one video ended.
#[derive(Debug)]
pub enum VideoOutcome {
    /// Identified, with its plan item.
    Planned(PlanItem),
    /// Not identified: no confident reading, no TMDB match or no episode number.
    NotFound,
    /// An outside call failed, with its message.
    Failed(String),
}

/// An unknown video as the file and the reason.
pub open spec fn unknowns(v: Seq<UnknownItem>) -> Seq<(VideoFile, Seq<char>)> {
    v.map_values(|u: UnknownItem| (u.source, u.reason@))
}

/// The reason given for every video of a directory whose first video was
/// not identified.
pub open spec fn directory_reason() -> Seq<char> {
    "Failed to parse or find metadata for directory"@
}

/// The reason given for a later video of an identified directory that was
/// not identified.
pub open spec fn episode_reason() -> Seq<char> {
    "Failed to extract episode info"@
}

/// The items and unknown videos gathered so far.
#[derive(Debug)]
pub struct Gathered {
    pub items: Vec<PlanItem>,
    pub unknown: Vec<UnknownItem>,
}

impl Gathered {
    /// Nothing gathered yet.
    pub fn new() -> (r: Self)
        ensures
            r.items@.len() == 0,
            r.unknown@.len() == 0,
    {
        Gathered { items: Vec::new(), unknown: Vec::new() }
    }

    fn mark_all(&mut self, group: &Vec<VideoFile>, reason: &String)
        ensures
            final(self).items == old(self).items,
            unknowns(final(self).unknown@) == unknowns(old(self).unknown@) + group@.map_values(
                |v: VideoFile| (v, reason@),
            ),
    {
        let ghost before = unknowns(self.unknown@);
        let mut i: usize = 0;
        while i < group.len()
            invariant
                i <= group@.len(),
                self.items == old(self).items,
                unknowns(self.unknown@) == before + group@.take(i as int).map_values(
                    |v: VideoFile| (v, reason@),
                ),
            decreases group@.len() - i,
        {
            let ghost u0 = self.unknown@;
            self.unknown.push(UnknownItem { source: group[i].copy(), reason: reason.clone() });
            proof {
                assert(unknowns(self.unknown@) =~= unknowns(u0).push((group@[i as int], reason@)));
                assert(group@.take(i + 1).map_values(|v: VideoFile| (v, reason@)) =~= group@.take(
                    i as int,
                ).map_values(|v: VideoFile| (v, reason@)).push((group@[i as int], reason@)));
            }
            i = i + 1;
        }
        assert(group@.take(group@.len() as int) =~= group@);
    }

    /// Record how the first video of a directory ended. When it was
    /// identified its item is kept and the rest of the directory is
    /// planned (the result is `true`); otherwise every video of the
    /// directory is unknown, with the failure's message or a reason saying
    /// that the directory was not identified.
    pub fn record_first(&mut self, group: &Vec<VideoFile>, outcome: VideoOutcome) -> (go_on: bool)
        ensures
            match outcome {
                VideoOutcome::Planned(item) => go_on && final(self).items@ == old(self).items@.push(item)
                    && final(self).unknown == old(self).unknown,
                VideoOutcome::NotFound => !go_on && final(self).items == old(self).items && unknowns(
                    final(self).unknown@,
                ) == unknowns(old(self).unknown@) + group@.map_values(
                    |v: VideoFile| (v, directory_reason()),
                ),
                VideoOutcome::Failed(m) => !go_on && final(self).items == old(self).items && unknowns(
                    final(self).unknown@,
                ) == unknowns(old(self).unknown@) + group@.map_values(|v: VideoFile| (v, m@)),
            },
    {
        match outcome {
            VideoOutcome::Planned(item) => {
                self.items.push(item);
                true
            },
            VideoOutcome::NotFound => {
                let reason = "Failed to parse or find metadata for directory".to_string();
                self.mark_all(group, &reason);
                false
            },
            VideoOutcome::Failed(m) => {
                self.mark_all(group, &m);
                false
            },
        }
    }

    /// Record how a later video of an identified directory ended: its item,
    /// or the video as unknown with the failure's message or a reason
    /// saying that its episode was not found.
    pub fn record_rest(&mut self, video: &VideoFile, outcome: VideoOutcome)
        ensures
            match outcome {
                VideoOutcome::Planned(item) => final(self).items@ == old(self).items@.push(item)
                    && final(self).unknown == old(self).unknown,
                VideoOutcome::NotFound => final(self).items == old(self).items && unknowns(
                    final(self).unknown@,
                ) == unknowns(old(self).unknown@).push((*video, episode_reason())),
                VideoOutcome::Failed(m) => final(self).items == old(self).items && unknowns(
                    final(self).unknown@,
                ) == unknowns(old(self).unknown@).push((*video, m@)),
            },
    {
        let ghost u0 = self.unknown@;
        match outcome {
            VideoOutcome::Planned(item) => {
                self.items.push(item);
            },
            VideoOutcome::NotFound => {
                self.unknown.push(
                    UnknownItem { source: video.copy(), reason: "Failed to extract episode info".to_string() },
                );
                assert(unknowns(self.unknown@) =~= unknowns(u0).push((*video, episode_reason())));
            },
            VideoOutcome::Failed(m) => {
                self.unknown.push(UnknownItem { source: video.copy(), reason: m });
                assert(unknowns(self.unknown@) =~= unknowns(u0).push((*video, m@)));
            },
        }
    }
}

/// The plan of the gathered items, unknown videos and samples, stamped
/// now, unless two items would move files to the same target (see
/// `validate_no_duplicate_targets`, whose error is returned), and unless the
/// clock cannot be read.
pub fn finish_plan(
    gathered: Gathered,
    samples: Vec<SampleItem>,
    source: String,
    target: String,
    media_type: MediaType,
) -> (r: Result<Plan, Error>)
    ensures
        has_duplicate_target(moves_of(gathered.items@)) ==> (r matches Err(Error::Other(m)) && m@
            == duplicate_message(moves_of(gathered.items@))),
        !has_duplicate_target(moves_of(gathered.items@)) ==> (r is Ok || (r matches Err(Error::Other(m))
            && m@ == "system time before Unix epoch"@)),
        r matches Ok(p) ==> p.version@ == "1.0"@ && p.media_type == Some(media_type)
            && p.source_path == source && p.target_path == target && p.items == gathered.items
            && p.samples == samples && p.unknown == gathered.unknown
            && (exists|t: UtcTime| #[trigger] utc_time_valid(t) && p.created_at@ == rfc3339_text(t)),
{
    match validate_no_duplicate_targets(&gathered.items) {
        Err(e) => Err(e),
        Ok(()) => Ok(Plan {
            version: "1.0".to_string(),
            created_at: match now_rfc3339() {
                Some(at) => at,
                None => return Err(Error::Other("system time before Unix epoch".to_string())),
            },
            media_type: Some(media_type),
            source_path: source,
            target_path: target,
            items: gathered.items,
            samples,
            unknown: gathered.unknown,
        }),
    }
}

} // verus!
