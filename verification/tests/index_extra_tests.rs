use media_organizer::engine::indexer::{
    build_disk_index, central_index_path_in, config_dir_in, country_name_to_code, detect_disk_label,
    directory_video_size, disk_indexes_dir_in, disk_mount_points, is_sized_video, join_path,
    merge_disk_at, mount_points_for, remove_disk, nfo_file_for, parse_nfo_content, search, ParsedNfo,
};
use media_organizer::engine::nfo::{
    movie_from_nfo, nfo_tag, nfo_tags, parse_movie_nfo, tvshow_from_nfo, tvshow_nfo_readable,
};
use media_organizer::models::index::{CentralIndex, DiskIndex, DiskInfo, MovieEntry};
use media_organizer::models::keymap::KeyMap;
use media_organizer::Error;

const MOVIE_NFO: &str = "<movie>
  <title> 阿凡达 </title>
  <originaltitle>Avatar</originaltitle>
  <year>2009</year>
  <uniqueid type=\"tmdb\" default=\"true\">19995</uniqueid>
  <uniqueid type=\"imdb\">tt0499549</uniqueid>
  <set>
    <name>Avatar Collection</name>
    <totalmovies>3</totalmovies>
  </set>
  <country>United States of America</country>
  <genre>Action</genre><genre> </genre><genre>Adventure</genre>
  <actor><name>Sam Worthington</name><role>Jake</role></actor>
  <actor>Zoe Saldana</actor>
  <director>James Cameron</director>
  <runtime>162</runtime>
  <rating>7.6</rating>
</movie>";

#[test]
fn movie_nfo_fields() {
    let m = movie_from_nfo(MOVIE_NFO, "D1", &None, "Avatar", 10, Some(760), "id1".to_string(), "now".to_string());
    assert_eq!(m.title, "阿凡达");
    assert_eq!(m.original_title.as_deref(), Some("Avatar"));
    assert_eq!(m.year, Some(2009));
    assert_eq!(m.tmdb_id, Some(19995));
    assert_eq!(m.imdb_id.as_deref(), Some("tt0499549"));
    assert_eq!(m.collection_name.as_deref(), Some("Avatar Collection"));
    assert_eq!(m.collection_total_movies, Some(3));
    assert_eq!(m.country.as_deref(), Some("US"));
    assert_eq!(m.genres, vec!["Action".to_string(), "Adventure".to_string()]);
    assert_eq!(m.actors, vec!["Sam Worthington".to_string(), "Zoe Saldana".to_string()]);
    assert_eq!(m.directors, vec!["James Cameron".to_string()]);
    assert_eq!(m.runtime, Some(162));
    assert_eq!(m.rating, Some(760));
    assert_eq!(m.id, "id1");
    assert_eq!(nfo_tag(MOVIE_NFO, "rating").as_deref(), Some("7.6"));
}

#[test]
fn nfo_tags_do_not_cross_lines() {
    assert_eq!(nfo_tag("<title>a\nb</title><title>c</title>", "title").as_deref(), Some("c"));
    assert_eq!(nfo_tag("<title>x", "title"), None);
    assert_eq!(nfo_tags("<g>1</g><g>2</g>\n<g>3\n</g>", "g"), vec!["1".to_string(), "2".to_string()]);
}

#[test]
fn movie_nfo_defaults_and_flat_set() {
    let m = movie_from_nfo("<movie><tmdbid>x</tmdbid><set>Flat Set</set></movie>", "D", &None, "p", 0, None, "i".to_string(), "t".to_string());
    assert_eq!(m.title, "Unknown");
    assert_eq!(m.tmdb_id, None);
    assert_eq!(m.collection_name.as_deref(), Some("Flat Set"));
}

#[test]
fn tvshow_nfo_fields() {
    let c = "<tvshow><title>Show</title><premiered>2019-05-01</premiered><season>2</season></tvshow>";
    assert!(tvshow_nfo_readable(c));
    let t = tvshow_from_nfo(c, "D", &Some("u".to_string()), "Show", 5, "i".to_string(), "t".to_string());
    assert_eq!(t.year, Some(2019));
    assert_eq!(t.seasons, 2);
    assert_eq!(t.episodes, 0);
    assert_eq!(t.disk_uuid.as_deref(), Some("u"));
    assert!(!tvshow_nfo_readable("<tvshow><premiered>20</premiered></tvshow>"));
}

#[test]
fn nfo_kind_is_decided_by_root() {
    match parse_nfo_content(MOVIE_NFO, "D", &None, "p", 1, None) {
        Ok(ParsedNfo::Movie(m)) => assert_eq!(m.title, "阿凡达"),
        _ => panic!("expected a movie"),
    }
    match parse_nfo_content("<tvshow><title>S</title></tvshow>", "D", &None, "p", 1, None) {
        Ok(ParsedNfo::TvShow(t)) => assert_eq!(t.title, "S"),
        _ => panic!("expected a TV show"),
    }
    assert!(matches!(parse_nfo_content("<x/>", "D", &None, "p", 1, None), Err(Error::Other(m)) if m == "Unknown NFO format"));
    let a = parse_movie_nfo(MOVIE_NFO, "D", &None, "p", 1, None).unwrap();
    let b = parse_movie_nfo(MOVIE_NFO, "D", &None, "p", 1, None).unwrap();
    assert_ne!(a.id, b.id);
}

#[test]
fn country_codes() {
    assert_eq!(country_name_to_code("United States"), "US");
    assert_eq!(country_name_to_code("中国"), "CN");
    assert_eq!(country_name_to_code("South KOREA"), "KR");
    assert_eq!(country_name_to_code("Atlantis"), "Atlantis");
}

#[test]
fn disk_labels() {
    assert_eq!(detect_disk_label("/run/media/johnny/JMedia_M05/Movies").as_deref(), Some("JMedia_M05"));
    assert_eq!(detect_disk_label("/media/johnny/Disk2/x").as_deref(), Some("Disk2"));
    assert_eq!(detect_disk_label("/mnt/Archive/Movies").as_deref(), Some("Archive"));
    assert_eq!(detect_disk_label("/home/me/Videos/").as_deref(), Some("Videos"));
    assert_eq!(detect_disk_label("/run/media/u").as_deref(), Some("u"));
    assert_eq!(detect_disk_label("/"), None);
}

#[test]
fn locations() {
    assert_eq!(join_path("/a", "b"), "/a/b");
    assert_eq!(join_path("/a/", "b"), "/a/b");
    assert_eq!(join_path("", "b"), "b");
    assert_eq!(join_path("/a", "/b"), "/b");
    assert_eq!(config_dir_in(Some("/home/u/.config".to_string())).unwrap(), "/home/u/.config/media_organizer");
    assert_eq!(central_index_path_in(Some("/c".to_string())).unwrap(), "/c/media_organizer/central_index.json");
    assert_eq!(disk_indexes_dir_in(Some("/c".to_string())).unwrap(), "/c/media_organizer/disk_indexes");
    assert!(matches!(central_index_path_in(None), Err(Error::Other(m)) if m == "Failed to get config directory"));
    assert_eq!(
        mount_points_for("johnny", "D1"),
        vec!["/run/media/johnny/D1".to_string(), "/media/johnny/D1".to_string(), "/mnt/D1".to_string()]
    );
    assert_eq!(disk_mount_points("D1")[2], "/mnt/D1");
    assert_eq!(nfo_file_for("movies"), "movie.nfo");
    assert_eq!(nfo_file_for("tvshows"), "tvshow.nfo");
}

#[test]
fn video_sizes() {
    assert!(is_sized_video("a/b.MKV"));
    assert!(!is_sized_video("a/b.m2ts"));
    let files = vec![("x.mkv".to_string(), 10u64), ("x.nfo".to_string(), 5), ("y.ts".to_string(), 7)];
    assert_eq!(directory_video_size(&files), 17);
}

fn movie(id: &str, disk: &str, year: Option<u16>, size: u64) -> MovieEntry {
    MovieEntry {
        id: id.to_string(),
        disk: disk.to_string(),
        disk_uuid: None,
        relative_path: id.to_string(),
        title: id.to_string(),
        original_title: None,
        year,
        tmdb_id: None,
        imdb_id: None,
        collection_id: None,
        collection_name: None,
        collection_total_movies: None,
        country: None,
        genres: Vec::new(),
        actors: Vec::new(),
        directors: Vec::new(),
        runtime: None,
        rating: None,
        size_bytes: size,
        resolution: None,
        indexed_at: String::new(),
    }
}

#[test]
fn scanned_disk_index() {
    let parsed = vec![ParsedNfo::Movie(movie("a", "D", None, 3)), ParsedNfo::Movie(movie("b", "D", None, 4))];
    let d = build_disk_index("D", None, "/mnt/D/Movies", "movies", "now".to_string(), parsed);
    assert_eq!(d.disk.movie_count, 2);
    assert_eq!(d.disk.total_size_bytes, 7);
    assert_eq!(d.movies[1].id, "b");
    assert_eq!(d.disk.paths.get("movies").map(|s| s.as_str()), Some("/mnt/D/Movies"));
}

#[test]
fn search_sorts_latest_first_and_stably() {
    let mut paths = KeyMap::new();
    paths.insert("movies".to_string(), "/p".to_string());
    let disk = DiskIndex {
        version: "1.0".to_string(),
        disk: DiskInfo {
            label: "D".to_string(),
            uuid: None,
            last_indexed: String::new(),
            movie_count: 4,
            tvshow_count: 0,
            total_size_bytes: 0,
            base_path: "/p".to_string(),
            paths,
        },
        movies: vec![
            movie("a", "D", Some(2001), 1),
            movie("b", "D", None, 1),
            movie("c", "D", Some(2010), 1),
            movie("d", "D", Some(2001), 1),
        ],
        tvshows: Vec::new(),
    };
    let mut central = CentralIndex::default();
    merge_disk_at(&mut central, disk, "stamp".to_string());
    assert_eq!(central.updated_at, "stamp");
    let r = search(&central, None, None, None, None, None, None, None, None);
    let ids: Vec<&str> = r.movies.iter().map(|m| m.id.as_str()).collect();
    assert_eq!(ids, vec!["c", "a", "d", "b"]);
    assert!(r.collections.is_empty());
    let r = search(&central, None, None, None, Some("x"), None, None, None, Some("zz"));
    assert!(r.movies.is_empty());
    assert!(r.collections.is_empty());
}

#[test]
fn rescan_replaces_only_that_disk() {
    let mut central = CentralIndex::default();
    let mk = |label: &str, ms: Vec<MovieEntry>| DiskIndex {
        version: "1.0".to_string(),
        disk: DiskInfo {
            label: label.to_string(),
            uuid: None,
            last_indexed: String::new(),
            movie_count: 0,
            tvshow_count: 0,
            total_size_bytes: 0,
            base_path: String::new(),
            paths: KeyMap::new(),
        },
        movies: ms,
        tvshows: Vec::new(),
    };
    merge_disk_at(&mut central, mk("A", vec![movie("a1", "A", Some(2000), 5)]), "t1".to_string());
    merge_disk_at(&mut central, mk("B", vec![movie("b1", "B", Some(1995), 6)]), "t2".to_string());
    merge_disk_at(&mut central, mk("A", vec![movie("a2", "A", Some(2000), 7), movie("a3", "A", None, 1)]), "t3".to_string());
    let ids: Vec<&str> = central.movies.iter().map(|m| m.id.as_str()).collect();
    assert_eq!(ids, vec!["b1", "a2", "a3"]);
    assert_eq!(central.disks.get("A").unwrap().movie_count, 2);
    assert_eq!(central.disks.get("A").unwrap().total_size_bytes, 8);
    assert_eq!(central.statistics.total_size_bytes, 14);
    assert_eq!(central.statistics.by_decade.get("1990s"), Some(&1));
    assert_eq!(central.statistics.by_decade.get("2000s"), Some(&1));
}

#[test]
fn removing_a_disk_drops_its_entries() {
    let mut central = CentralIndex::default();
    let mk = |label: &str, ms: Vec<MovieEntry>| DiskIndex {
        version: "1.0".to_string(),
        disk: DiskInfo::new(label.to_string()),
        movies: ms,
        tvshows: Vec::new(),
    };
    merge_disk_at(&mut central, mk("A", vec![movie("a1", "A", Some(2000), 5), movie("a2", "A", None, 2)]), "t1".to_string());
    merge_disk_at(&mut central, mk("B", vec![movie("b1", "B", Some(1995), 6)]), "t2".to_string());
    let removed = remove_disk(&mut central, "A");
    assert_eq!(removed, (2, 0));
    let ids: Vec<&str> = central.movies.iter().map(|m| m.id.as_str()).collect();
    assert_eq!(ids, vec!["b1"]);
    assert!(!central.disks.contains_key("A"));
    assert!(central.disks.contains_key("B"));
    assert_eq!(central.statistics.total_movies, 1);
    assert_eq!(central.statistics.total_disks, 1);
    assert_eq!(central.statistics.total_size_bytes, 6);
    assert_eq!(central.statistics.by_decade.get("2000s"), None);
    assert_eq!(remove_disk(&mut central, "missing"), (0, 0));
    assert_eq!(central.statistics.total_movies, 1);
}
