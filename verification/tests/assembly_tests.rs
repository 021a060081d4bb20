use chrono::{Datelike, Timelike};
use media_organizer::engine::clock::{new_uuid, now_rfc3339, present_year, rfc3339_of, stamp_of, utc_now, UtcTime};
use media_organizer::engine::details::{
    movie_metadata_of, tvshow_metadata_of, CastMember, CountryReleases, CrewMember, MovieDetailsRecord,
    ProductionCountry, TvDetailsRecord,
};
use media_organizer::engine::executor::{validate_plan, ExecutionLog, ItemFacts};
use media_organizer::engine::indexer::search;
use media_organizer::engine::parser::extract_episode_from_filename;
use media_organizer::engine::planner::{default_plan_path, process_samples};
use media_organizer::engine::rollback::RollbackResult;
use media_organizer::generators::filename::generate_episode_filename;
use media_organizer::models::index::{CentralIndex, MovieEntry};
use media_organizer::models::media::{EpisodeMetadata, TvShowMetadata, VideoMetadata};
use media_organizer::models::plan::{ParsedInfo, Plan, PlanItem, PlanItemStatus, TargetInfo, VideoFile};
use media_organizer::models::rollback::{RollbackAction, RollbackActionType, RollbackOpType, RollbackOperation};
use media_organizer::utils::chinese::normalize;

fn utc(secs: i64, nanos: u32) -> (UtcTime, chrono::DateTime<chrono::Utc>) {
    let t = chrono::DateTime::from_timestamp(secs, nanos).unwrap();
    let u = UtcTime {
        year: t.year(),
        month: t.month(),
        day: t.day(),
        hour: t.hour(),
        minute: t.minute(),
        second: t.second(),
        nanosecond: t.nanosecond(),
    };
    (u, t)
}

#[test]
fn rfc3339_text_of_fixed_times() {
    let t = UtcTime { year: 2024, month: 1, day: 2, hour: 3, minute: 4, second: 5, nanosecond: 0 };
    assert_eq!(rfc3339_of(&t), "2024-01-02T03:04:05+00:00");
    let t = UtcTime { nanosecond: 123_000_000, ..t };
    assert_eq!(rfc3339_of(&t), "2024-01-02T03:04:05.123+00:00");
    let t = UtcTime { nanosecond: 123_456_000, ..t };
    assert_eq!(rfc3339_of(&t), "2024-01-02T03:04:05.123456+00:00");
    let t = UtcTime { nanosecond: 1, ..t };
    assert_eq!(rfc3339_of(&t), "2024-01-02T03:04:05.000000001+00:00");
    let leap = UtcTime { year: 2016, month: 12, day: 31, hour: 23, minute: 59, second: 59, nanosecond: 1_500_000_000 };
    assert_eq!(rfc3339_of(&leap), "2016-12-31T23:59:60.500+00:00");
    let far = UtcTime { year: 12345, month: 6, day: 7, hour: 8, minute: 9, second: 10, nanosecond: 0 };
    assert_eq!(rfc3339_of(&far), "+12345-06-07T08:09:10+00:00");
    let early = UtcTime { year: 7, month: 6, day: 7, hour: 8, minute: 9, second: 10, nanosecond: 0 };
    assert_eq!(stamp_of(&early), "00070607_080910");
}

#[test]
fn plan_stamp_of_fixed_time() {
    let t = UtcTime { year: 2024, month: 1, day: 2, hour: 3, minute: 4, second: 5, nanosecond: 999_999_999 };
    assert_eq!(stamp_of(&t), "20240102_030405");
}

#[test]
fn clock_texts_agree_with_chrono() {
    for (secs, nanos) in [(0i64, 0u32), (1_700_000_000, 5_000_000), (1_234_567_890, 123_456_789), (951_782_400, 250_000), (253_402_300_799, 0)] {
        let (u, t) = utc(secs, nanos);
        assert_eq!(rfc3339_of(&u), t.to_rfc3339());
        assert_eq!(stamp_of(&u), t.format("%Y%m%d_%H%M%S").to_string());
    }
}

#[test]
fn present_clock_reads() {
    let now = utc_now().unwrap();
    assert!(now.year >= 2024);
    assert!(present_year() >= 2024);
    let s = now_rfc3339().unwrap();
    assert!(s.ends_with("+00:00"));
    assert_eq!(&s[4..5], "-");
}

#[test]
fn fresh_ids_are_version_four_uuids() {
    let a = new_uuid().unwrap();
    let b = new_uuid().unwrap();
    assert_eq!(a.len(), 36);
    assert_eq!(&a[14..15], "4");
    assert_ne!(a, b);
    let log = ExecutionLog::begin().unwrap();
    assert_eq!(log.rollback.plan_id.len(), 36);
    assert!(log.rollback.operations.is_empty());
}

#[test]
fn default_plan_path_has_a_stamp() {
    let p = default_plan_path("/src", Some("/dst")).unwrap();
    assert!(p.starts_with("/dst/plan_"));
    assert!(p.ends_with(".json"));
    let stamp = &p["/dst/plan_".len()..p.len() - ".json".len()];
    assert_eq!(stamp.len(), 15);
    assert_eq!(&stamp[8..9], "_");
    assert!(stamp.chars().enumerate().all(|(i, c)| i == 8 || c.is_ascii_digit()));
}

fn record() -> MovieDetailsRecord {
    MovieDetailsRecord {
        id: 27205,
        imdb_id: Some("tt1375666".to_string()),
        original_title: "Inception".to_string(),
        title: "盗梦空间".to_string(),
        original_language: "en".to_string(),
        release_date: Some("2010-07-15".to_string()),
        overview: Some("Dreams".to_string()),
        tagline: None,
        runtime: Some(148),
        genres: vec!["Action".to_string(), "Science Fiction".to_string()],
        production_countries: vec![
            ProductionCountry { iso_3166_1: "US".to_string(), name: "United States of America".to_string() },
            ProductionCountry { iso_3166_1: "GB".to_string(), name: "United Kingdom".to_string() },
        ],
        production_companies: vec!["Legendary".to_string(), "Syncopy".to_string(), "Warner".to_string(), "Other".to_string()],
        vote_average: Some(837),
        vote_count: Some(35000),
        poster_path: Some("/p.jpg".to_string()),
        backdrop_path: Some("/b.jpg".to_string()),
        crew: vec![
            CrewMember { name: "Christopher Nolan".to_string(), job: "Director".to_string() },
            CrewMember { name: "Christopher Nolan".to_string(), job: "Writer".to_string() },
            CrewMember { name: "Hans Zimmer".to_string(), job: "Original Music Composer".to_string() },
        ],
        cast: vec![
            CastMember { name: "Leonardo DiCaprio".to_string(), character: Some("Cobb".to_string()) },
            CastMember { name: "Somebody".to_string(), character: None },
        ],
        release_dates: vec![
            CountryReleases { iso_3166_1: "CN".to_string(), certifications: vec![Some("".to_string())] },
            CountryReleases { iso_3166_1: "US".to_string(), certifications: vec![None, Some("PG-13".to_string())] },
        ],
    }
}

#[test]
fn movie_metadata_from_details() {
    let m = movie_metadata_of(record(), "w500");
    assert_eq!(m.tmdb_id, 27205);
    assert_eq!(m.year, 2010);
    assert_eq!(m.title, "盗梦空间");
    assert_eq!(m.countries, vec!["United States of America", "United Kingdom"]);
    assert_eq!(m.country_codes, vec!["US", "GB"]);
    assert_eq!(m.studios, vec!["Legendary", "Syncopy", "Warner"]);
    assert_eq!(m.directors, vec!["Christopher Nolan"]);
    assert_eq!(m.writers, vec!["Christopher Nolan"]);
    assert_eq!(m.actors, vec!["Leonardo DiCaprio", "Somebody"]);
    assert_eq!(m.actor_roles, vec!["Cobb", ""]);
    assert_eq!(m.certification.as_deref(), Some("PG-13"));
    assert_eq!(m.poster_urls, vec!["https://image.tmdb.org/t/p/w500/p.jpg"]);
    assert_eq!(m.backdrop_url.as_deref(), Some("https://image.tmdb.org/t/p/original/b.jpg"));
    assert_eq!(m.rating, Some(837));
    let mut bare = record();
    bare.release_date = None;
    bare.poster_path = None;
    bare.release_dates = Vec::new();
    let m = movie_metadata_of(bare, "w500");
    assert_eq!(m.year, 0);
    assert!(m.poster_urls.is_empty());
    assert_eq!(m.certification, None);
}

#[test]
fn tvshow_metadata_from_details() {
    let d = TvDetailsRecord {
        id: 1396,
        imdb_id: Some("tt0903747".to_string()),
        original_name: "Breaking Bad".to_string(),
        name: "绝命毒师".to_string(),
        original_language: "en".to_string(),
        first_air_date: Some("2008-01-20".to_string()),
        overview: None,
        production_countries: vec![ProductionCountry { iso_3166_1: "US".to_string(), name: "United States of America".to_string() }],
        poster_path: Some("/bb.jpg".to_string()),
    };
    let s = tvshow_metadata_of(d);
    assert_eq!(s.year, 2008);
    assert_eq!(s.country_codes, vec!["US"]);
    assert_eq!(s.poster_urls, vec!["https://image.tmdb.org/t/p/original/bb.jpg"]);
    assert_eq!(s.imdb_id.as_deref(), Some("tt0903747"));
}

fn undo(path: &str) -> RollbackOperation {
    RollbackOperation {
        seq: 1,
        op_type: RollbackOpType::Mkdir,
        from: path.to_string(),
        to: path.to_string(),
        checksum: None,
        rollback: RollbackAction { op: RollbackActionType::Rmdir, path: path.to_string(), to: None },
        executed: true,
    }
}

#[test]
fn dry_run_counts_every_operation_done() {
    let ops = vec![undo("/a"), undo("/b"), undo("/c")];
    let r = RollbackResult::dry_run(&ops);
    assert_eq!(r.success_count, 3);
    assert_eq!(r.skip_count, 0);
    assert_eq!(r.error_count, 0);
    assert!(r.errors.is_empty());
    assert!(r.is_success());
}

fn entry(id: &str, genres: &[&str], actors: &[&str]) -> MovieEntry {
    MovieEntry {
        id: id.to_string(),
        disk: "D".to_string(),
        disk_uuid: None,
        relative_path: id.to_string(),
        title: id.to_string(),
        original_title: None,
        year: Some(2010),
        tmdb_id: None,
        imdb_id: None,
        collection_id: None,
        collection_name: None,
        collection_total_movies: None,
        country: None,
        genres: genres.iter().map(|s| s.to_string()).collect(),
        actors: actors.iter().map(|s| s.to_string()).collect(),
        directors: Vec::new(),
        runtime: None,
        rating: None,
        size_bytes: 1,
        resolution: None,
        indexed_at: String::new(),
    }
}

#[test]
fn added_filters_only_narrow() {
    let mut central = CentralIndex::default();
    central.movies = vec![
        entry("a", &["Drama"], &["X"]),
        entry("b", &["Drama", "Crime"], &["Y"]),
        entry("c", &["Crime"], &["X"]),
    ];
    central.rebuild_indexes();
    let all = search(&central, None, None, None, None, None, None, None, None);
    assert_eq!(all.movies.len(), 3);
    let drama = search(&central, None, None, None, None, None, None, Some("drama"), None);
    assert_eq!(drama.movies.len(), 2);
    let both = search(&central, None, Some("x"), None, None, None, None, Some("drama"), None);
    assert_eq!(both.movies.len(), 1);
    assert_eq!(both.movies[0].id, "a");
    assert!(both.movies.iter().all(|m| drama.movies.iter().any(|d| d.id == m.id)));
}

#[test]
fn episode_without_season_marker_is_in_season_one() {
    assert_eq!(extract_episode_from_filename("Show.E05.mkv"), (Some(1), Some(5)));
    assert_eq!(extract_episode_from_filename("第12集.mp4"), (Some(1), Some(12)));
    assert_eq!(extract_episode_from_filename("Show.S03E07.mkv"), (Some(3), Some(7)));
    assert_eq!(extract_episode_from_filename("no numbers here.mkv"), (None, None));
}

#[test]
fn episode_file_names_hold_no_reserved_characters() {
    let mut show = TvShowMetadata::default();
    show.name = "A: Show?".to_string();
    show.original_name = "A: Show?".to_string();
    let mut ep = EpisodeMetadata::default();
    ep.season_number = 1;
    ep.episode_number = 2;
    ep.name = "A/B: C?".to_string();
    let mut v = VideoMetadata::default();
    v.resolution = "1080p".to_string();
    v.format = "WEB-DL".to_string();
    v.video_codec = "h264".to_string();
    v.bit_depth = 8;
    v.audio_codec = "aac".to_string();
    v.audio_channels = "2.0".to_string();
    let name = generate_episode_filename(&show, &ep, &v, "mkv");
    assert!(name.contains("[A_B_ C_]"));
    assert!(name.starts_with('['));
    assert!(name.ends_with(".mkv"));
    assert!(!name.chars().any(|c| "/\\:*?\"<>|".contains(c)));
}

#[test]
fn normalized_titles_hold_no_space() {
    assert_eq!(normalize("  The Matrix "), "thematrix");
    assert!(!normalize("a \t b\u{3000}c").chars().any(|c| c.is_whitespace()));
}

#[test]
fn empty_plan_passes_validation() {
    let plan = Plan::default();
    assert!(validate_plan(&plan, &Vec::new()).is_ok());
}

fn file(path: &str, parent: &str, name: &str) -> VideoFile {
    VideoFile {
        path: path.to_string(),
        filename: name.to_string(),
        size: 1,
        modified: String::new(),
        is_sample: false,
        parent_dir: parent.to_string(),
    }
}

fn planned(parent: &str, full: &str) -> PlanItem {
    PlanItem {
        id: "i".to_string(),
        status: PlanItemStatus::Pending,
        source: file(&format!("{}/m.mkv", parent), parent, "m.mkv"),
        parsed: ParsedInfo { title: None, original_title: None, year: None, confidence: 0, raw_response: None },
        movie_metadata: None,
        tvshow_metadata: None,
        episode_metadata: None,
        video_metadata: VideoMetadata::default(),
        target: TargetInfo {
            folder: "F".to_string(),
            filename: "m.mkv".to_string(),
            full_path: full.to_string(),
            nfo: "movie.nfo".to_string(),
            poster: None,
        },
        operations: Vec::new(),
    }
}

#[test]
fn samples_go_with_their_first_owner() {
    let items = vec![
        planned("/in/A", "/out/US/[A](2001)/a.mkv"),
        planned("/in", "/out/US/[B](2002)/b.mkv"),
    ];
    let samples = vec![
        file("/in/A/Sample/s.mkv", "/in/A/Sample", "s.mkv"),
        file("/in/t.mkv", "/in", "t.mkv"),
        file("/elsewhere/u.mkv", "/elsewhere", "u.mkv"),
    ];
    let moves = process_samples(&samples, &items, "/out");
    assert_eq!(moves.len(), 2);
    assert_eq!(moves[0].source, "/in/A/Sample/s.mkv");
    assert_eq!(moves[0].target, "/out/US/[A](2001)/Sample/s.mkv");
    assert_eq!(moves[1].target, "/out/US/[B](2002)/Sample/t.mkv");
    let facts = vec![ItemFacts { source_exists: true, target_exists: true }, ItemFacts { source_exists: true, target_exists: false }];
    let plan = Plan { items, ..Plan::default() };
    assert!(validate_plan(&plan, &facts).is_ok());
}

#[test]
fn a_run_log_numbers_its_successes() {
    let mut log = ExecutionLog::start("p".to_string(), "t".to_string());
    log.record(Ok(Some(undo("/a"))));
    log.record(Err(media_organizer::Error::Other("x".to_string())));
    log.record(Ok(None));
    log.record(Ok(Some(undo("/b"))));
    assert_eq!(log.success_count, 3);
    assert_eq!(log.error_count, 1);
    assert_eq!(log.seq, 3);
    let seqs: Vec<u32> = log.rollback.operations.iter().map(|o| o.seq).collect();
    assert_eq!(seqs, vec![1, 3]);
    assert!(log.rollback.operations.iter().all(|o| o.executed));
    let undo_seqs: Vec<u32> = media_organizer::engine::rollback::undo_order(log.rollback.clone()).iter().map(|o| o.seq).collect();
    assert_eq!(undo_seqs, vec![3, 1]);
}

#[test]
fn country_search_upper_cases_its_code() {
    let mut central = CentralIndex::default();
    let mut us = entry("us movie", &[], &[]);
    us.country = Some("US".to_string());
    let mut cn = entry("cn movie", &[], &[]);
    cn.country = Some("CN".to_string());
    central.movies = vec![us, cn];
    central.rebuild_indexes();
    let upper = search(&central, None, None, None, None, None, None, None, Some("CN"));
    let lower = search(&central, None, None, None, None, None, None, None, Some("cn"));
    assert_eq!(upper.movies.len(), 1);
    assert_eq!(upper.movies[0].id, "cn movie");
    assert_eq!(lower.movies.len(), 1);
    assert_eq!(lower.movies[0].id, "cn movie");
    let none = search(&central, None, None, None, None, None, None, None, Some("XX"));
    assert!(none.movies.is_empty() && none.tvshows.is_empty());
}
