use media_organizer::engine::details::{
    backdrop_url_of, country_lists, poster_urls_of, studios_of, tmdb_image_url, ProductionCountry,
};
use media_organizer::engine::executor::{execution_order, needs_action, validate_plan, ExecStep, Executor, ItemFacts};
use media_organizer::engine::indexer::{
    is_sized_video, lowered_title_hit, merge_disk_into_central, parse_nfo_content, search, ParsedNfo,
};
use media_organizer::engine::nfo::parse_movie_nfo;
use media_organizer::engine::parser::{episode_from_stem_chars, extract_episode_from_filename};
use media_organizer::engine::planner::{select_best_tv_match, validate_no_duplicate_targets, TvCandidate};
use media_organizer::models::index::{CentralIndex, DiskIndex, DiskInfo, MovieEntry, TvShowEntry};
use media_organizer::models::keymap::KeyMap;
use media_organizer::models::media::{MediaType, VideoMetadata};
use media_organizer::models::plan::{
    Operation, OperationType, ParsedInfo, Plan, PlanItem, PlanItemStatus, TargetInfo, VideoFile,
};
use media_organizer::utils::chinese::{lowered_titles_equivalent, simplify_char, titles_equivalent};
use media_organizer::utils::fs::{is_video_extension, is_video_file};
use media_organizer::Error;

fn disk(label: &str, kind: &str, path: &str, movies: Vec<MovieEntry>, tvshows: Vec<TvShowEntry>) -> DiskIndex {
    let mut paths = KeyMap::new();
    paths.insert(kind.to_string(), path.to_string());
    let mut info = DiskInfo::new(label.to_string());
    info.base_path = path.to_string();
    info.paths = paths;
    DiskIndex { version: "1.0".to_string(), disk: info, movies, tvshows }
}

fn movie(id: &str, disk: &str, director: &str) -> MovieEntry {
    MovieEntry {
        id: id.to_string(),
        disk: disk.to_string(),
        disk_uuid: None,
        relative_path: id.to_string(),
        title: id.to_string(),
        original_title: None,
        year: Some(2010),
        tmdb_id: None,
        imdb_id: None,
        collection_id: None,
        collection_name: None,
        collection_total_movies: None,
        country: None,
        genres: Vec::new(),
        actors: vec!["Shared Actor".to_string()],
        directors: vec![director.to_string()],
        runtime: None,
        rating: None,
        size_bytes: 10,
        resolution: None,
        indexed_at: String::new(),
    }
}

fn show(id: &str, disk: &str) -> TvShowEntry {
    TvShowEntry {
        id: id.to_string(),
        disk: disk.to_string(),
        disk_uuid: None,
        relative_path: id.to_string(),
        title: id.to_string(),
        original_title: None,
        year: Some(2012),
        tmdb_id: None,
        imdb_id: None,
        country: None,
        genres: Vec::new(),
        actors: vec!["Shared Actor".to_string()],
        seasons: 1,
        episodes: 8,
        size_bytes: 20,
        indexed_at: String::new(),
    }
}

#[test]
fn director_search_lists_movies_only() {
    let mut central = CentralIndex::default();
    merge_disk_into_central(&mut central, disk("D", "movies", "/mnt/D/Movies", vec![movie("m1", "D", "Nolan")], Vec::new())).unwrap();
    merge_disk_into_central(&mut central, disk("D", "tvshows", "/mnt/D/TV", Vec::new(), vec![show("t1", "D")])).unwrap();
    let r = search(&central, None, None, Some("nolan"), None, None, None, None, None);
    assert_eq!(r.movies.len(), 1);
    assert!(r.tvshows.is_empty());
    // Without a director both kinds are found.
    let r = search(&central, None, Some("shared"), None, None, None, None, None, None);
    assert_eq!(r.movies.len(), 1);
    assert_eq!(r.tvshows.len(), 1);
}

#[test]
fn merging_keeps_each_media_path_of_a_disk() {
    let mut central = CentralIndex::default();
    merge_disk_into_central(&mut central, disk("D", "movies", "/mnt/D/Movies", vec![movie("m1", "D", "x")], Vec::new())).unwrap();
    merge_disk_into_central(&mut central, disk("D", "tvshows", "/mnt/D/TV", Vec::new(), vec![show("t1", "D")])).unwrap();
    let d = central.disks.get("D").unwrap();
    assert_eq!(d.paths.get("movies").map(|s| s.as_str()), Some("/mnt/D/Movies"));
    assert_eq!(d.paths.get("tvshows").map(|s| s.as_str()), Some("/mnt/D/TV"));
    assert_eq!(d.movie_count, 1);
    assert_eq!(d.tvshow_count, 1);
    assert_eq!(d.total_size_bytes, 30);
}

fn video(path: &str) -> VideoFile {
    VideoFile {
        path: path.to_string(),
        filename: "a.mkv".to_string(),
        size: 1,
        modified: String::new(),
        is_sample: false,
        parent_dir: "/in".to_string(),
    }
}

fn item(source: &str, ops: Vec<Operation>, status: PlanItemStatus) -> PlanItem {
    PlanItem {
        id: "i".to_string(),
        status,
        source: video(source),
        parsed: ParsedInfo { title: None, original_title: None, year: None, confidence: 0, raw_response: None },
        movie_metadata: None,
        tvshow_metadata: None,
        episode_metadata: None,
        video_metadata: VideoMetadata::default(),
        target: TargetInfo {
            folder: "F".to_string(),
            filename: "a.mkv".to_string(),
            full_path: "/out/F/a.mkv".to_string(),
            nfo: "movie.nfo".to_string(),
            poster: None,
        },
        operations: ops,
    }
}

fn op(kind: OperationType, from: Option<&str>, to: &str) -> Operation {
    Operation { op: kind, from: from.map(|s| s.to_string()), to: to.to_string(), url: None, content_ref: None }
}

#[test]
fn existing_targets_are_never_overwritten() {
    let mv = ExecStep::Move { from: "/in/a.mkv".to_string(), to: "/out/F/a.mkv".to_string() };
    assert!(!needs_action(&mv, true));
    assert!(needs_action(&mv, false));
    let plan = Plan {
        items: vec![item("/in/a.mkv", vec![op(OperationType::Mkdir, None, "/out/F"), op(OperationType::Move, Some("/in/a.mkv"), "/out/F/a.mkv")], PlanItemStatus::Pending)],
        media_type: Some(MediaType::Movies),
        ..Plan::default()
    };
    let ex = Executor::new();
    assert!(matches!(ex.operation_step(&plan, 0, 1, true), Ok(None)));
    assert!(matches!(ex.operation_step(&plan, 0, 1, false), Ok(Some(ExecStep::Move { .. }))));
    let broken = Plan {
        items: vec![item("/in/a.mkv", vec![op(OperationType::Move, None, "/out/F/a.mkv")], PlanItemStatus::Pending)],
        ..Plan::default()
    };
    assert!(matches!(ex.operation_step(&broken, 0, 0, true), Err(Error::ExecuteError(m)) if m == "Move operation missing 'from' path"));
}

#[test]
fn execution_goes_through_pending_items_in_order() {
    let plan = Plan {
        items: vec![
            item("/in/a.mkv", vec![op(OperationType::Mkdir, None, "/o"), op(OperationType::Move, Some("/in/a.mkv"), "/o/a")], PlanItemStatus::Pending),
            item("/in/b.mkv", vec![op(OperationType::Mkdir, None, "/p")], PlanItemStatus::Completed),
            item("/in/c.mkv", vec![op(OperationType::Mkdir, None, "/q")], PlanItemStatus::Pending),
        ],
        ..Plan::default()
    };
    assert_eq!(execution_order(&plan), vec![(0, 0), (0, 1), (2, 0)]);
}

#[test]
fn validation_counts_missing_sources() {
    let plan = Plan {
        items: vec![
            item("/in/a.mkv", Vec::new(), PlanItemStatus::Pending),
            item("/in/b.mkv", Vec::new(), PlanItemStatus::Pending),
            item("/in/c.mkv", Vec::new(), PlanItemStatus::Skipped),
        ],
        ..Plan::default()
    };
    let facts = vec![
        ItemFacts { source_exists: false, target_exists: true },
        ItemFacts { source_exists: false, target_exists: false },
        ItemFacts { source_exists: false, target_exists: false },
    ];
    assert!(matches!(validate_plan(&plan, &facts), Err(Error::PlanValidationError(m)) if m == "2 errors found"));
}

#[test]
fn rmvb_is_a_video() {
    assert!(is_video_file("致命呼叫 2013.rmvb"));
    assert!(is_video_file("Movie.RMVB"));
    assert!(is_video_extension("rmvb"));
    assert!(!is_video_extension("RMVB"));
    assert!(!is_video_file("notes.txt"));
    assert!(!is_sized_video("a.rmvb"));
}

#[test]
fn episode_word_gives_the_episode() {
    assert_eq!(extract_episode_from_filename("Episode 05.mkv"), (Some(1), Some(5)));
    assert_eq!(extract_episode_from_filename("Show.episode12.1080p.mkv"), (Some(1), Some(12)));
    assert_eq!(extract_episode_from_filename("Show.S02E10.mkv"), (Some(2), Some(10)));
    // At most two season digits and three episode digits are read.
    assert_eq!(extract_episode_from_filename("Show.S12E3456.mkv"), (Some(12), Some(345)));
    let name: Vec<char> = "Episode 7".chars().collect();
    let lower: Vec<char> = "episode 7".chars().collect();
    assert_eq!(episode_from_stem_chars(&name, &lower), (Some(1), Some(7)));
}

#[test]
fn traditional_and_simplified_titles_are_equivalent() {
    assert!(titles_equivalent("黑客帝國", "黑客帝国"));
    assert!(titles_equivalent(" 愛情 公寓 ", "爱情公寓"));
    assert!(titles_equivalent("Avatar", "avatar"));
    assert!(!titles_equivalent("黑客帝国", "阿凡达"));
    assert_eq!(simplify_char('國'), '国');
    assert_eq!(simplify_char('a'), 'a');
    let a: Vec<char> = "龍 門".chars().collect();
    let b: Vec<char> = "龙门".chars().collect();
    assert!(lowered_titles_equivalent(&a, &b));
    let q: Vec<char> = "mat".chars().collect();
    let t: Vec<char> = "the matrix".chars().collect();
    assert!(lowered_title_hit(&q, &t, &None));
    assert!(!lowered_title_hit(&q, &"avatar".chars().collect(), &Some("blue".chars().collect())));
}

const WRITTEN_NFO: &str = "<?xml version=\"1.0\" encoding=\"UTF-8\" standalone=\"yes\"?>
<movie>
  <title>买下我</title>
  <originaltitle>Купи меня</originaltitle>
  <year>2017</year>
  <uniqueid type=\"tmdb\" default=\"true\">460036</uniqueid>
  <uniqueid type=\"imdb\">tt6964554</uniqueid>
  <genre>剧情</genre>
  <country>Russia</country>
  <director>导演</director>
  <actor>
    <name>演员名</name>
    <role>角色名</role>
    <order>0</order>
  </actor>
</movie>";

#[test]
fn actors_are_read_across_lines() {
    let m = parse_movie_nfo(WRITTEN_NFO, "D", &None, "p", 1, None).unwrap();
    assert_eq!(m.title, "买下我");
    assert_eq!(m.original_title.as_deref(), Some("Купи меня"));
    assert_eq!(m.year, Some(2017));
    assert_eq!(m.tmdb_id, Some(460036));
    assert_eq!(m.imdb_id.as_deref(), Some("tt6964554"));
    assert_eq!(m.genres, vec!["剧情".to_string()]);
    assert_eq!(m.country.as_deref(), Some("RU"));
    assert_eq!(m.directors, vec!["导演".to_string()]);
    assert_eq!(m.actors, vec!["演员名".to_string()]);
    match parse_nfo_content(WRITTEN_NFO, "D", &None, "p", 1, Some(650)).unwrap() {
        ParsedNfo::Movie(m) => {
            assert_eq!(m.actors, vec!["演员名".to_string()]);
            assert_eq!(m.rating, Some(650));
        }
        other => panic!("unexpected {:?}", other),
    }
}

#[test]
fn duplicate_report_is_complete() {
    let items = vec![
        item("/a", vec![op(OperationType::Move, Some("/a"), "/t/1")], PlanItemStatus::Pending),
        item("/b", vec![op(OperationType::Move, Some("/b"), "/t/1")], PlanItemStatus::Pending),
        item("/c", vec![op(OperationType::Move, Some("/c"), "/t/2")], PlanItemStatus::Pending),
    ];
    match validate_no_duplicate_targets(&items) {
        Err(Error::Other(m)) => assert_eq!(
            m,
            "CRITICAL: Duplicate target paths detected! This would cause data loss.\n\nTarget: \"/t/1\"\n  Would overwrite these source files:\n    - \"/a\"\n    - \"/b\"\n\nTotal: 1 duplicate targets affecting 2 files.\nPlan generation aborted to prevent data loss."
        ),
        other => panic!("unexpected {:?}", other),
    }
}

#[test]
fn tv_scores_fit_their_arithmetic() {
    let results = vec![
        TvCandidate { id: 1, name: "Show Extended Edition".to_string(), original_name: "x".to_string() },
        TvCandidate { id: 2, name: "Show Two".to_string(), original_name: "y".to_string() },
    ];
    assert_eq!(select_best_tv_match("Show", &results), Some(1));
}

#[test]
fn detail_lists() {
    let cs = vec![
        ProductionCountry { iso_3166_1: "US".to_string(), name: "United States of America".to_string() },
        ProductionCountry { iso_3166_1: "NZ".to_string(), name: "New Zealand".to_string() },
    ];
    let (names, codes) = country_lists(&cs);
    assert_eq!(names, vec!["United States of America".to_string(), "New Zealand".to_string()]);
    assert_eq!(codes, vec!["US".to_string(), "NZ".to_string()]);
    let studios: Vec<String> = ["A", "B", "C", "D"].iter().map(|s| s.to_string()).collect();
    assert_eq!(studios_of(&studios), vec!["A".to_string(), "B".to_string(), "C".to_string()]);
    assert_eq!(tmdb_image_url("w500", "/p.jpg"), "https://image.tmdb.org/t/p/w500/p.jpg");
    assert_eq!(poster_urls_of(&Some("/p.jpg".to_string()), "original"), vec!["https://image.tmdb.org/t/p/original/p.jpg".to_string()]);
    assert!(poster_urls_of(&None, "w500").is_empty());
    assert_eq!(backdrop_url_of(&Some("/b.jpg".to_string())).as_deref(), Some("https://image.tmdb.org/t/p/original/b.jpg"));
}
