use media_organizer::engine::parser::ParsedFilename;
use media_organizer::engine::planner::{MovieCandidate, TvCandidate};
use media_organizer::engine::search_flow::{
    movie_search_start, movie_search_step, movie_search_step_at, tv_search_start, tv_search_step, Phase,
    SearchAction,
};

fn parsed(title: &str, orig: &str, year: Option<u16>) -> ParsedFilename {
    ParsedFilename {
        title: Some(title.to_string()),
        original_title: Some(orig.to_string()),
        year,
        confidence: 900,
        ..Default::default()
    }
}

fn movie(id: u64, title: &str, orig: &str, date: &str) -> MovieCandidate {
    MovieCandidate {
        id,
        title: title.to_string(),
        original_title: orig.to_string(),
        release_date: Some(date.to_string()),
        vote_count: Some(10),
    }
}

fn search_of(a: &SearchAction) -> (String, Option<u16>) {
    match a {
        SearchAction::Search { query, year } => (query.clone(), *year),
        other => panic!("unexpected {:?}", other),
    }
}

#[test]
fn movie_search_tries_each_query_with_then_without_year() {
    let p = parsed("阿凡达", "Avatar", Some(2009));
    let (s, a) = movie_search_start(&p, true);
    assert_eq!(s.queries, vec!["阿凡达".to_string(), "Avatar".to_string()]);
    assert_eq!(search_of(&a), ("阿凡达".to_string(), Some(2009)));
    let (s, a) = movie_search_step_at(s, &p, &Vec::new(), 2024);
    assert_eq!(s.phase, Phase::WithoutYear);
    assert_eq!(search_of(&a), ("阿凡达".to_string(), None));
    // A result whose titles do not fit the query is passed over.
    let (s, a) = movie_search_step_at(s, &p, &vec![movie(1, "Zzz", "Qqq", "2001-01-01")], 2024);
    assert_eq!(s.index, 1);
    assert_eq!(s.phase, Phase::WithYear);
    assert_eq!(search_of(&a), ("Avatar".to_string(), Some(2009)));
    let results = vec![movie(7, "Avatar: The Way of Water", "Avatar: The Way of Water", "2022-12-14"), movie(19995, "阿凡达", "Avatar", "2009-12-18")];
    let (_, a) = movie_search_step_at(s, &p, &results, 2024);
    assert!(matches!(a, SearchAction::Details { id: 19995 }));
}

#[test]
fn movie_search_ends_without_match() {
    let p = parsed("Xyz", "Xyz", None);
    let (s, a) = movie_search_start(&p, true);
    assert_eq!(s.phase, Phase::WithoutYear);
    assert_eq!(search_of(&a), ("Xyz".to_string(), None));
    let (_, a) = movie_search_step(s, &p, &Vec::new());
    assert!(matches!(a, SearchAction::NotFound));
    let (_, a) = movie_search_start(&p, false);
    assert!(matches!(a, SearchAction::NotFound));
    let (_, a) = movie_search_start(&ParsedFilename::default(), true);
    assert!(matches!(a, SearchAction::NotFound));
}

#[test]
fn tv_search_uses_folder_and_best_match() {
    let p = parsed("黑盒子", "Black Box", None);
    let (s, a) = tv_search_start(&p, Some("Z_秘密花园.4集"), true);
    assert_eq!(s.queries, vec!["黑盒子".to_string(), "Black Box".to_string(), "秘密花园".to_string()]);
    assert_eq!(search_of(&a), ("黑盒子".to_string(), None));
    assert_eq!(s.phase, Phase::WithYear);
    let (s, a) = tv_search_step(s, &p, &Vec::new());
    assert_eq!(s.phase, Phase::WithoutYear);
    assert_eq!(search_of(&a), ("黑盒子".to_string(), None));
    let results = vec![
        TvCandidate { id: 1, name: "黑盒子的秘密花园".to_string(), original_name: "x".to_string() },
        TvCandidate { id: 2, name: "黑盒子".to_string(), original_name: "Black Box".to_string() },
    ];
    let (_, a) = tv_search_step(s, &p, &results);
    assert!(matches!(a, SearchAction::Details { id: 2 }));
}

#[test]
fn tv_search_moves_on_and_gives_up() {
    let p = parsed("Aaa", "Aaa", Some(2020));
    let (s, a) = tv_search_start(&p, None, true);
    assert_eq!(search_of(&a), ("Aaa".to_string(), Some(2020)));
    let unrelated = vec![TvCandidate { id: 9, name: "Zzz".to_string(), original_name: "Qqq".to_string() }];
    let (s, a) = tv_search_step(s, &p, &unrelated);
    assert_eq!(search_of(&a), ("Aaa".to_string(), None));
    let (_, a) = tv_search_step(s, &p, &unrelated);
    assert!(matches!(a, SearchAction::NotFound));
    let (_, a) = tv_search_start(&p, None, false);
    assert!(matches!(a, SearchAction::NotFound));
}
