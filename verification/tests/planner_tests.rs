use media_organizer::engine::parser::ParsedFilename;
use media_organizer::engine::planner::{
    add_shortened_queries, build_movie_queries, build_parse_input, build_tv_queries, default_plan_path,
    format_country_folder, generate_target_info, get_meaningful_folder_name, group_by_parent,
    is_minimal_filename, is_reasonable_match, normalize_title, parse_from_cache, placeholder_episode,
    plan_path_at, process_samples, select_best_tv_match, best_movie_index, validate_no_duplicate_targets,
    year_from_date, MovieCandidate, PlannerConfig, TvCandidate,
};
use media_organizer::models::media::{
    EpisodeMetadata, MediaType, MovieMetadata, TvShowMetadata, VideoMetadata,
};
use media_organizer::models::plan::{
    Operation, OperationType, ParsedInfo, PlanItem, PlanItemStatus, TargetInfo, VideoFile,
};
use media_organizer::Error;

#[test]
fn test_planner_config_default() {
    let config = PlannerConfig::default();
    assert_eq!(config.min_confidence, 500);
    assert!(config.download_posters);
    assert!(config.generate_nfo);
    assert_eq!(config.poster_size, "w500");
}

#[test]
fn test_default_plan_path() {
    let source = "/tmp/movies";
    let target = "/tmp/movies_organized";

    // Test with target
    let path = default_plan_path(source, Some(target)).unwrap();
    assert!(path.contains("plan_"));
    assert!(path.ends_with(".json"));
    assert!(std::path::Path::new(&path).starts_with(target));

    // Test without target (falls back to source)
    let path = default_plan_path(source, None).unwrap();
    assert!(std::path::Path::new(&path).starts_with(source));
}

#[test]
fn plan_path_uses_stamp() {
    assert_eq!(plan_path_at("/src", Some("/dst/"), "20240101_120000"), "/dst/plan_20240101_120000.json");
    assert_eq!(plan_path_at("/src", None, "x"), "/src/plan_x.json");
}

fn strings(v: &[&str]) -> Vec<String> {
    v.iter().map(|s| s.to_string()).collect()
}

#[test]
fn country_folder_prefers_original_language() {
    let codes = strings(&["US", "KR"]);
    let names = strings(&["United States of America", "South Korea"]);
    assert_eq!(format_country_folder(&codes, &names, "ko"), Some("KR_SouthKorea".to_string()));
    assert_eq!(format_country_folder(&codes, &names, "xx"), Some("US_UnitedStatesOfAmerica".to_string()));
    assert_eq!(format_country_folder(&strings(&["cn"]), &strings(&["china"]), "zh"), Some("CN_China".to_string()));
    assert_eq!(format_country_folder(&Vec::new(), &names, "en"), None);
}

#[test]
fn year_from_date_reads_prefix() {
    assert_eq!(year_from_date(&Some("2009-12-18".to_string())), 2009);
    assert_eq!(year_from_date(&Some("abc".to_string())), 0);
    assert_eq!(year_from_date(&None), 0);
}

fn video(path: &str, parent: &str, name: &str) -> VideoFile {
    VideoFile {
        path: path.to_string(),
        filename: name.to_string(),
        size: 1,
        modified: String::new(),
        is_sample: false,
        parent_dir: parent.to_string(),
    }
}

fn movie_meta() -> MovieMetadata {
    MovieMetadata {
        tmdb_id: 19995,
        imdb_id: Some("tt0499549".to_string()),
        original_title: "Avatar".to_string(),
        title: "阿凡达".to_string(),
        original_language: "en".to_string(),
        year: 2009,
        countries: strings(&["United States of America"]),
        country_codes: strings(&["US"]),
        poster_urls: strings(&["http://img/p.jpg"]),
        ..Default::default()
    }
}

#[test]
fn target_info_for_movie() {
    let config = PlannerConfig::default();
    let parsed = ParsedFilename::default();
    let v = VideoMetadata::default();
    let r = generate_target_info(
        &config,
        "/in/Avatar.mkv",
        &Some(movie_meta()),
        &None,
        &parsed,
        &v,
        "/out",
        MediaType::Movies,
        "[Avatar](2009)",
    )
    .unwrap();
    let (info, ops) = r;
    assert_eq!(info.folder, "[Avatar](2009)");
    assert_eq!(info.nfo, "movie.nfo");
    assert!(info.full_path.starts_with("/out/US_UnitedStatesOfAmerica/[Avatar](2009)/"));
    assert!(info.filename.ends_with(".mkv"));
    assert_eq!(ops.len(), 4);
    assert_eq!(ops[0].op, OperationType::Mkdir);
    assert_eq!(ops[0].to, "/out/US_UnitedStatesOfAmerica/[Avatar](2009)");
    assert_eq!(ops[1].op, OperationType::Move);
    assert_eq!(ops[1].from.as_deref(), Some("/in/Avatar.mkv"));
    assert_eq!(ops[2].op, OperationType::Create);
    assert_eq!(ops[2].to, "/out/US_UnitedStatesOfAmerica/[Avatar](2009)/movie.nfo");
    assert_eq!(ops[3].op, OperationType::Download);
    assert_eq!(ops[3].to, "/out/US_UnitedStatesOfAmerica/[Avatar](2009)/poster.jpg");
    assert_eq!(ops[3].url.as_deref(), Some("http://img/p.jpg"));
}

#[test]
fn target_info_for_episode_without_details() {
    let config = PlannerConfig { download_posters: false, ..PlannerConfig::default() };
    let show = TvShowMetadata {
        name: "Show".to_string(),
        original_name: "Show".to_string(),
        original_language: "en".to_string(),
        year: 2020,
        ..Default::default()
    };
    let parsed = ParsedFilename { season: Some(2), episode: Some(5), ..Default::default() };
    let v = VideoMetadata::default();
    let (info, ops) = generate_target_info(
        &config,
        "/in/show.s02e05",
        &None,
        &Some((show, None)),
        &parsed,
        &v,
        "/out",
        MediaType::TvShows,
        "[Show](2020)",
    )
    .unwrap();
    assert_eq!(info.folder, "[Show](2020)/Season 02");
    assert_eq!(info.nfo, "tvshow.nfo");
    assert!(info.filename.contains("S02E05"));
    assert!(info.filename.contains("Episode 5"));
    assert!(info.filename.ends_with(".s02e05"));
    assert_eq!(ops.len(), 3);
    assert_eq!(ops[0].to, "/out/Unknown/[Show](2020)/Season 02");
    assert_eq!(ops[2].to, "/out/Unknown/[Show](2020)/tvshow.nfo");
}

#[test]
fn target_info_needs_metadata() {
    let config = PlannerConfig::default();
    let parsed = ParsedFilename::default();
    let v = VideoMetadata::default();
    let r = generate_target_info(&config, "/in/a.mkv", &None, &None, &parsed, &v, "/out", MediaType::Movies, "x");
    assert!(matches!(r, Err(Error::Other(m)) if m == "Missing movie metadata"));
    let r = generate_target_info(&config, "/in/a.mkv", &None, &None, &parsed, &v, "/out", MediaType::TvShows, "x");
    assert!(matches!(r, Err(Error::Other(m)) if m == "Missing TV show metadata"));
}

fn item_with_move(source: &str, to: &str) -> PlanItem {
    PlanItem {
        id: "i".to_string(),
        status: PlanItemStatus::Pending,
        source: video(source, "/in", "f.mkv"),
        parsed: ParsedInfo { title: None, original_title: None, year: None, confidence: 0, raw_response: None },
        movie_metadata: None,
        tvshow_metadata: None,
        episode_metadata: None,
        video_metadata: VideoMetadata::default(),
        target: TargetInfo {
            folder: "F".to_string(),
            filename: "f.mkv".to_string(),
            full_path: to.to_string(),
            nfo: "movie.nfo".to_string(),
            poster: None,
        },
        operations: vec![Operation {
            op: OperationType::Move,
            from: Some(source.to_string()),
            to: to.to_string(),
            url: None,
            content_ref: None,
        }],
    }
}

#[test]
fn duplicate_targets_are_refused() {
    let ok = vec![item_with_move("/a", "/t/1"), item_with_move("/b", "/t/2")];
    assert!(validate_no_duplicate_targets(&ok).is_ok());
    let bad = vec![item_with_move("/a", "/t/1"), item_with_move("/b", "/t/1")];
    match validate_no_duplicate_targets(&bad) {
        Err(Error::Other(m)) => {
            assert!(m.starts_with("CRITICAL: Duplicate target paths detected!"));
            assert!(m.contains("\"/a\""));
            assert!(m.contains("Total: 1 duplicate targets affecting 2 files."));
        }
        other => panic!("unexpected {:?}", other),
    }
}

#[test]
fn shortened_queries_cut_long_titles() {
    let mut q = vec!["破坏不在场证明 特别篇 钟表店侦探与祖父的不在场证明".to_string()];
    let t = q[0].clone();
    add_shortened_queries(&mut q, &t);
    assert_eq!(q[1], "破坏不在场证明 特别篇");
    let mut q2: Vec<String> = Vec::new();
    add_shortened_queries(&mut q2, "Mission: Impossible");
    assert_eq!(q2, vec!["Mission".to_string()]);
    let mut q3: Vec<String> = Vec::new();
    add_shortened_queries(&mut q3, "A: B");
    assert!(q3.is_empty());
}

#[test]
fn minimal_filenames() {
    assert!(is_minimal_filename("E01.mkv"));
    assert!(is_minimal_filename("2024 SP 特别篇 xxxxxxxxxx.mkv"));
    assert!(!is_minimal_filename("The.Matrix.1999.1080p.mkv"));
    assert!(is_minimal_filename("noextensionatall"));
}

#[test]
fn parse_input_uses_parent_for_minimal_names() {
    let v = video("/m/刺杀小说家2/E01.mkv", "/m/刺杀小说家2", "E01.mkv");
    assert_eq!(build_parse_input(&v), "刺杀小说家2 - E01.mkv");
    let v = video("/m/Movies/E01.mkv", "/m/Movies", "E01.mkv");
    assert_eq!(build_parse_input(&v), "E01.mkv");
    let v = video("/m/Show/The.Matrix.1999.mkv", "/m/Show", "The.Matrix.1999.mkv");
    assert_eq!(build_parse_input(&v), "The.Matrix.1999.mkv");
}

#[test]
fn meaningful_folder_skips_quality() {
    assert_eq!(get_meaningful_folder_name("/tv/黑盒子"), Some("黑盒子".to_string()));
    assert_eq!(get_meaningful_folder_name("/tv/黑盒子/1080P 内封字幕"), Some("黑盒子".to_string()));
    assert_eq!(get_meaningful_folder_name("/tv/1080p/Season 1"), None);
}

#[test]
fn reasonable_matches() {
    assert!(is_reasonable_match("matrix", "The Matrix", "The Matrix"));
    assert!(is_reasonable_match("阿凡达2", "阿凡达：水之道", "Avatar"));
    assert!(!is_reasonable_match("Titanic", "Avatar", "Avatar"));
}

fn tv(name: &str, orig: &str) -> TvCandidate {
    TvCandidate { id: 1, name: name.to_string(), original_name: orig.to_string() }
}

#[test]
fn best_tv_match_prefers_exact_then_shortest_prefix() {
    let r = vec![tv("战地青春：直击", "x"), tv("战地青春之歌", "y")];
    assert_eq!(select_best_tv_match("战地青春", &r), Some(1));
    let r = vec![tv("Other", "Other"), tv("breaking bad", "Breaking Bad")];
    assert_eq!(select_best_tv_match("Breaking Bad", &r), Some(1));
    let r = vec![tv("xyz", "xyz")];
    assert_eq!(select_best_tv_match("abc", &r), None);
    assert_eq!(select_best_tv_match("abc", &Vec::new()), None);
}

fn mc(title: &str, date: Option<&str>, votes: Option<u32>) -> MovieCandidate {
    MovieCandidate {
        id: 1,
        title: title.to_string(),
        original_title: title.to_string(),
        release_date: date.map(|d| d.to_string()),
        vote_count: votes,
    }
}

#[test]
fn best_movie_prefers_exact_title_then_votes() {
    let r = vec![mc("Avatar 2", Some("2022-12-01"), Some(9000)), mc("Avatar", Some("2009-12-18"), Some(100))];
    assert_eq!(best_movie_index(&r, "avatar", 2024), 1);
    let r = vec![mc("A", Some("2009-01-01"), Some(5)), mc("B", Some("2010-01-01"), Some(50))];
    assert_eq!(best_movie_index(&r, "zzz", 2024), 1);
    let r = vec![mc("A", Some("2099-01-01"), Some(5000)), mc("B", None, Some(1))];
    assert_eq!(best_movie_index(&r, "zzz", 2024), 1);
    assert_eq!(normalize_title("The Matrix: Reloaded!"), "thematrixreloaded");
}

#[test]
fn search_queries() {
    let p = ParsedFilename {
        title: Some("阿凡达".to_string()),
        original_title: Some("Avatar".to_string()),
        ..Default::default()
    };
    assert_eq!(build_movie_queries(&p), vec!["阿凡达".to_string(), "Avatar".to_string()]);
    let p = ParsedFilename {
        title: Some("Slow.Horses".to_string()),
        original_title: Some("Slow_Horses".to_string()),
        ..Default::default()
    };
    assert_eq!(build_tv_queries(&p, Some("Z_Slow Horses.S02")), vec!["Slow Horses".to_string()]);
    assert_eq!(build_tv_queries(&p, Some("Z_Other_Show.4集")), vec!["Slow Horses".to_string(), "Other Show".to_string()]);
    assert_eq!(build_tv_queries(&p, Some("1080P")), vec!["Slow Horses".to_string()]);
}

#[test]
fn grouping_by_parent_keeps_order() {
    let vs = vec![
        video("/a/1.mkv", "/a", "1.mkv"),
        video("/b/1.mkv", "/b", "1.mkv"),
        video("/a/2.mkv", "/a", "2.mkv"),
    ];
    let g = group_by_parent(&vs);
    assert_eq!(g.len(), 2);
    assert_eq!(g[0].0, "/a");
    assert_eq!(g[0].1, vec![0, 2]);
    assert_eq!(g[1].1, vec![1]);
}

#[test]
fn samples_follow_their_item() {
    let items = vec![item_with_move("/in/Movie/m.mkv", "/out/US_UnitedStates/F/m.mkv")];
    let mut s = video("/in/Sample/s.mkv", "/in/Sample", "s.mkv");
    s.is_sample = true;
    let orphan = video("/elsewhere/s.mkv", "/elsewhere", "s.mkv");
    let out = process_samples(&vec![s, orphan], &items, "/out");
    assert_eq!(out.len(), 1);
    assert_eq!(out[0].source, "/in/Sample/s.mkv");
    assert_eq!(out[0].target, "/out/US_UnitedStates/F/Sample/s.mkv");
}

#[test]
fn cached_show_parse() {
    let show = TvShowMetadata { name: "黑盒子".to_string(), original_name: "Black Box".to_string(), year: 2023, ..Default::default() };
    let p = parse_from_cache(&show, "黑盒子.S01E03.mkv").unwrap();
    assert_eq!(p.season, Some(1));
    assert_eq!(p.episode, Some(3));
    assert_eq!(p.title.as_deref(), Some("黑盒子"));
    assert_eq!(p.confidence, 1000);
    assert!(parse_from_cache(&show, "trailer.mkv").is_none());
    let e: EpisodeMetadata = placeholder_episode(1, 7);
    assert_eq!(e.name, "Episode 7");
}
