use media_organizer::engine::parser::{FilenameParser, ParsedFilename};
use media_organizer::engine::planner::{PlannerConfig, process_samples};
use media_organizer::engine::video_flow::{
    build_plan_item, finish_plan, split_work, video_step, EpisodeDetails, Gathered, VideoAction, VideoEvent,
    VideoOutcome, VideoState, Work,
};
use media_organizer::models::media::{MediaType, MovieMetadata, TvShowMetadata, VideoMetadata};
use media_organizer::models::plan::{PlanItemStatus, VideoFile};
use media_organizer::Error;

fn video(path: &str, parent: &str, name: &str) -> VideoFile {
    VideoFile {
        path: path.to_string(),
        filename: name.to_string(),
        size: 1,
        modified: String::new(),
        is_sample: false,
        parent_dir: parent.to_string(),
    }
}

fn show() -> TvShowMetadata {
    TvShowMetadata {
        tmdb_id: 42,
        name: "黑盒子".to_string(),
        original_name: "Black Box".to_string(),
        original_language: "zh".to_string(),
        year: 2023,
        ..Default::default()
    }
}

fn movie() -> MovieMetadata {
    MovieMetadata {
        tmdb_id: 19995,
        original_title: "Avatar".to_string(),
        title: "阿凡达".to_string(),
        original_language: "en".to_string(),
        year: 2009,
        countries: vec!["United States of America".to_string()],
        country_codes: vec!["US".to_string()],
        ..Default::default()
    }
}

fn confident(title: &str) -> ParsedFilename {
    ParsedFilename { title: Some(title.to_string()), confidence: 900, ..Default::default() }
}

#[test]
fn movie_goes_through_model_tmdb_and_probe() {
    let parser = FilenameParser::new();
    let v = video("/in/Movies/Avatar.2009.mkv", "/in/Movies", "Avatar.2009.mkv");
    let (s, a) = video_step(&parser, &v, MediaType::Movies, None, true, VideoState::Start, VideoEvent::Begin);
    match a {
        VideoAction::ParseFilename { input } => assert!(input.contains("Avatar.2009.mkv")),
        other => panic!("unexpected {:?}", other),
    }
    let (s, a) = video_step(&parser, &v, MediaType::Movies, None, true, s, VideoEvent::Parsed(confident("Avatar")));
    assert!(matches!(a, VideoAction::LookUpMovie));
    let (s, a) = video_step(&parser, &v, MediaType::Movies, None, true, s, VideoEvent::MovieFound(Some(movie())));
    assert!(matches!(a, VideoAction::ProbeVideo));
    let (s, a) = video_step(&parser, &v, MediaType::Movies, None, true, s, VideoEvent::Probed(VideoMetadata::default()));
    assert!(matches!(a, VideoAction::Build));
    match s {
        VideoState::Ready { parsed, work: Work::Movie(m), episode: None, .. } => {
            assert_eq!(parsed.title.as_deref(), Some("Avatar"));
            assert_eq!(m.tmdb_id, 19995);
        }
        other => panic!("unexpected {:?}", other),
    }
}

#[test]
fn unsure_reading_or_no_match_gives_up() {
    let parser = FilenameParser::new();
    let v = video("/in/x.mkv", "/in", "x.mkv");
    let low = ParsedFilename { title: Some("x".to_string()), confidence: 100, ..Default::default() };
    let (s, a) = video_step(&parser, &v, MediaType::Movies, None, true, VideoState::AwaitParse, VideoEvent::Parsed(low));
    assert!(matches!(s, VideoState::Unidentified) && matches!(a, VideoAction::GiveUp));
    let untitled = ParsedFilename { confidence: 900, ..Default::default() };
    let (_, a) = video_step(&parser, &v, MediaType::Movies, None, true, VideoState::AwaitParse, VideoEvent::Parsed(untitled));
    assert!(matches!(a, VideoAction::GiveUp));
    let (_, a) = video_step(
        &parser,
        &v,
        MediaType::Movies,
        None,
        true,
        VideoState::AwaitMovie { parsed: confident("x") },
        VideoEvent::MovieFound(None),
    );
    assert!(matches!(a, VideoAction::GiveUp));
}

#[test]
fn cached_show_reads_episode_from_filename() {
    let parser = FilenameParser::new();
    let cached = show();
    let v = video("/tv/黑盒子/黑盒子.S01E03.mkv", "/tv/黑盒子", "黑盒子.S01E03.mkv");
    let (s, a) = video_step(&parser, &v, MediaType::TvShows, Some(&cached), true, VideoState::Start, VideoEvent::Begin);
    match a {
        VideoAction::FetchEpisode { tmdb_id, season, episode } => assert_eq!((tmdb_id, season, episode), (42, 1, 3)),
        other => panic!("unexpected {:?}", other),
    }
    let (s, a) = video_step(&parser, &v, MediaType::TvShows, Some(&cached), true, s, VideoEvent::EpisodeFound(None));
    assert!(matches!(a, VideoAction::ProbeVideo));
    match s {
        VideoState::AwaitProbe { parsed, work: Work::CachedShow, episode: Some(e) } => {
            assert_eq!(parsed.raw_response.as_deref(), Some("regex_extracted"));
            assert_eq!(e.name, "Episode 3");
        }
        other => panic!("unexpected {:?}", other),
    }
    // Without TMDB access the episode is a placeholder at once.
    let (s, a) = video_step(&parser, &v, MediaType::TvShows, Some(&cached), false, VideoState::Start, VideoEvent::Begin);
    assert!(matches!(a, VideoAction::ProbeVideo));
    assert!(matches!(s, VideoState::AwaitProbe { episode: Some(ref e), .. } if e.episode_number == 3));
    // No episode number: the video is not identified.
    let t = video("/tv/黑盒子/trailer.mkv", "/tv/黑盒子", "trailer.mkv");
    let (_, a) = video_step(&parser, &t, MediaType::TvShows, Some(&cached), true, VideoState::Start, VideoEvent::Begin);
    assert!(matches!(a, VideoAction::GiveUp));
}

#[test]
fn found_show_without_episode_fetches_details() {
    let parser = FilenameParser::new();
    let v = video("/tv/黑盒子/1080p/黑盒子.S02E05.mkv", "/tv/黑盒子/1080p", "黑盒子.S02E05.mkv");
    let (s, a) = video_step(&parser, &v, MediaType::TvShows, None, true, VideoState::AwaitParse, VideoEvent::Parsed(confident("黑盒子")));
    match a {
        VideoAction::LookUpShow { folder } => assert_eq!(folder.as_deref(), Some("黑盒子")),
        other => panic!("unexpected {:?}", other),
    }
    let (s, a) = video_step(&parser, &v, MediaType::TvShows, None, true, s, VideoEvent::ShowFound(Some(show()), None));
    match a {
        VideoAction::FetchEpisode { tmdb_id, season, episode } => assert_eq!((tmdb_id, season, episode), (42, 2, 5)),
        other => panic!("unexpected {:?}", other),
    }
    let details = EpisodeDetails { name: "Pilot".to_string(), air_date: Some("2023-01-01".to_string()), overview: None };
    let (s, _) = video_step(&parser, &v, MediaType::TvShows, None, true, s, VideoEvent::EpisodeFound(Some(details)));
    match s {
        VideoState::AwaitProbe { work: Work::Show(sh), episode: Some(e), .. } => {
            assert_eq!(sh.tmdb_id, 42);
            assert_eq!(e.name, "Pilot");
            assert_eq!((e.season_number, e.episode_number), (2, 5));
            assert_eq!(e.air_date.as_deref(), Some("2023-01-01"));
        }
        other => panic!("unexpected {:?}", other),
    }
    // Without TMDB access the first video keeps no episode.
    let (s, a) = video_step(
        &parser,
        &v,
        MediaType::TvShows,
        None,
        false,
        VideoState::AwaitShow { parsed: confident("黑盒子") },
        VideoEvent::ShowFound(Some(show()), None),
    );
    assert!(matches!(a, VideoAction::ProbeVideo));
    assert!(matches!(s, VideoState::AwaitProbe { episode: None, .. }));
    let (_, a) = video_step(
        &parser,
        &v,
        MediaType::TvShows,
        None,
        true,
        VideoState::AwaitShow { parsed: confident("黑盒子") },
        VideoEvent::ShowFound(None, None),
    );
    assert!(matches!(a, VideoAction::GiveUp));
}

#[test]
fn plan_item_and_directory_bookkeeping() {
    let config = PlannerConfig::default();
    let v = video("/in/Avatar.mkv", "/in", "Avatar.mkv");
    let (m, t) = split_work(Work::Movie(movie()), None, None);
    let item = build_plan_item(&config, v.clone(), confident("Avatar"), m, t, VideoMetadata::default(), "/out", MediaType::Movies, "[Avatar](2009)")
        .unwrap();
    assert_eq!(item.status, PlanItemStatus::Pending);
    assert_eq!(item.source.path, "/in/Avatar.mkv");
    assert_eq!(item.parsed.title.as_deref(), Some("Avatar"));
    assert_eq!(item.operations.len(), 3);
    assert!(!item.id.is_empty());
    let missing = build_plan_item(&config, v.clone(), confident("x"), None, None, VideoMetadata::default(), "/out", MediaType::TvShows, "x");
    assert!(matches!(missing, Err(Error::Other(m)) if m == "Missing TV show metadata"));

    let group = vec![video("/d/a.mkv", "/d", "a.mkv"), video("/d/b.mkv", "/d", "b.mkv")];
    let mut g = Gathered::new();
    assert!(!g.record_first(&group, VideoOutcome::NotFound));
    assert_eq!(g.unknown.len(), 2);
    assert_eq!(g.unknown[1].source.path, "/d/b.mkv");
    assert_eq!(g.unknown[1].reason, "Failed to parse or find metadata for directory");
    assert!(!g.record_first(&group, VideoOutcome::Failed("TMDB down".to_string())));
    assert_eq!(g.unknown[3].reason, "TMDB down");
    assert!(g.record_first(&group, VideoOutcome::Planned(item)));
    g.record_rest(&group[1], VideoOutcome::NotFound);
    assert_eq!(g.unknown[4].reason, "Failed to extract episode info");
    assert_eq!(g.items.len(), 1);

    let samples = process_samples(&Vec::new(), &g.items, "/out");
    let plan = finish_plan(g, samples, "/in".to_string(), "/out".to_string(), MediaType::Movies).unwrap();
    assert_eq!(plan.version, "1.0");
    assert_eq!(plan.items.len(), 1);
    assert_eq!(plan.unknown.len(), 5);
    assert_eq!(plan.media_type, Some(MediaType::Movies));
}

#[test]
fn plan_with_clashing_targets_is_refused() {
    let config = PlannerConfig::default();
    let mut g = Gathered::new();
    for name in ["/in/a/Avatar.mkv", "/in/b/Avatar.mkv"] {
        let (m, t) = split_work(Work::Movie(movie()), None, None);
        let item = build_plan_item(&config, video(name, "/in", "Avatar.mkv"), confident("Avatar"), m, t, VideoMetadata::default(), "/out", MediaType::Movies, "[Avatar](2009)")
            .unwrap();
        g.record_rest(&video(name, "/in", "Avatar.mkv"), VideoOutcome::Planned(item));
    }
    let r = finish_plan(g, Vec::new(), "/in".to_string(), "/out".to_string(), MediaType::Movies);
    assert!(matches!(r, Err(Error::Other(m)) if m.starts_with("CRITICAL: Duplicate target paths detected!")));
}
