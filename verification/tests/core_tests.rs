use media_organizer::engine::executor::{Executor, ExecutorConfig, ItemFacts};
use media_organizer::engine::parser::{FilenameParser, ParsedFilename, ParserConfig};
use media_organizer::engine::rollback::RollbackResult;
use media_organizer::generators::filename::generate_movie_filename;
use media_organizer::models::media::{MediaType, MovieMetadata, VideoMetadata};
use media_organizer::models::plan::Plan;
use media_organizer::utils::chinese::{contains_chinese, titles_equivalent};
use media_organizer::utils::fs::{is_sample, is_video_file};

#[test]
fn test_executor_config_default() {
    let config = ExecutorConfig::default();
    assert!(config.verify_checksum);
    assert!(config.backup_on_overwrite);
}

#[test]
fn test_validate_empty_plan() {
    let plan = Plan::default();
    let executor = Executor::new();
    let facts: Vec<ItemFacts> = Vec::new();
    let result = executor.validate(&plan, &facts);
    assert!(result.is_ok());
}

#[test]
fn test_rollback_result_default() {
    let result = RollbackResult::default();
    assert!(result.is_success());
    assert_eq!(result.success_count, 0);
    assert_eq!(result.error_count, 0);
}

#[test]
fn test_rollback_result_with_errors() {
    let result = RollbackResult {
        success_count: 5,
        skip_count: 1,
        error_count: 2,
        errors: vec!["error1".to_string(), "error2".to_string()],
    };
    assert!(!result.is_success());
}

#[test]
fn test_contains_chinese() {
    assert!(contains_chinese("阿凡达"));
    assert!(contains_chinese("Avatar 阿凡达"));
    assert!(!contains_chinese("Avatar"));
    assert!(!contains_chinese("The Matrix"));
}

#[test]
fn test_titles_equivalent() {
    assert!(titles_equivalent("Avatar", "avatar"));
    assert!(titles_equivalent("The Matrix", "the matrix"));
    assert!(!titles_equivalent("Avatar", "Titanic"));
}

#[test]
fn test_is_video_file() {
    assert!(is_video_file("movie.mkv"));
    assert!(is_video_file("movie.MP4"));
    assert!(!is_video_file("movie.txt"));
    assert!(!is_video_file("movie.nfo"));
}

#[test]
fn test_is_sample() {
    assert!(is_sample("/path/Sample/video.mkv"));
    assert!(is_sample("/path/video.sample.mkv"));
    assert!(!is_sample("/path/video.mkv"));
}

#[test]
fn test_generate_movie_filename() {
    let movie = MovieMetadata {
        original_title: "Avatar".to_string(),
        title: "阿凡达".to_string(),
        original_language: "en".to_string(),
        year: 2009,
        ..Default::default()
    };

    let video = VideoMetadata {
        resolution: "2160p".to_string(),
        format: "BluRay".to_string(),
        video_codec: "x265".to_string(),
        bit_depth: 10,
        audio_codec: "TrueHD".to_string(),
        audio_channels: "7.1".to_string(),
    };

    let filename = generate_movie_filename(&movie, &video, None, "mkv");
    assert!(filename.contains("[Avatar]"));
    assert!(filename.contains("[阿凡达]"));
    assert!(filename.contains("2160p"));
    assert!(filename.contains("10bit"));
    assert!(filename.ends_with(".mkv"));
}

#[test]
fn test_parsed_filename_default() {
    let parsed = ParsedFilename::default();
    assert!(parsed.original_title.is_none());
    assert!(parsed.title.is_none());
    assert!(parsed.year.is_none());
    assert_eq!(parsed.confidence, 0);
}

#[test]
fn test_parser_config_default() {
    let config = ParserConfig::default();
    assert_eq!(config.max_concurrent, 3);
    assert_eq!(config.min_confidence, 500);
}

#[test]
fn test_generate_prompt_movie() {
    let parser = FilenameParser::new();
    let prompt = parser.generate_prompt("Avatar.2009.1080p.BluRay.mkv", MediaType::Movies);
    assert!(prompt.contains("Avatar.2009.1080p.BluRay.mkv"));
    assert!(prompt.contains("电影"));
}

#[test]
fn test_generate_prompt_tvshow() {
    let parser = FilenameParser::new();
    let prompt = parser.generate_prompt("Breaking.Bad.S01E01.720p.mkv", MediaType::TvShows);
    assert!(prompt.contains("Breaking.Bad.S01E01.720p.mkv"));
    assert!(prompt.contains("电视剧"));
}

#[test]
fn test_validate_year_range() {
    let parser = FilenameParser::new();

    // Valid year
    let parsed = ParsedFilename {
        year: Some(2020),
        confidence: 1000,
        original_title: Some("Test".to_string()),
        ..Default::default()
    };
    let result = parser.validate_result(parsed).unwrap();
    assert_eq!(result.year, Some(2020));

    // Invalid year (too old)
    let parsed = ParsedFilename {
        year: Some(1800),
        confidence: 1000,
        original_title: Some("Test".to_string()),
        ..Default::default()
    };
    let result = parser.validate_result(parsed).unwrap();
    assert!(result.year.is_none());
}

#[test]
fn test_is_valid() {
    let parser = FilenameParser::new();

    // Valid result
    let parsed = ParsedFilename {
        original_title: Some("Avatar".to_string()),
        confidence: 800,
        ..Default::default()
    };
    assert!(parser.is_valid(&parsed));

    // Low confidence
    let parsed = ParsedFilename {
        original_title: Some("Avatar".to_string()),
        confidence: 300,
        ..Default::default()
    };
    assert!(!parser.is_valid(&parsed));

    // No title
    let parsed = ParsedFilename {
        confidence: 800,
        ..Default::default()
    };
    assert!(!parser.is_valid(&parsed));
}
