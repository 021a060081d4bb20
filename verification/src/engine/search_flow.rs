//! TMDB searches, step by step. The caller runs each search and hands the
//! results back; each step picks the best result and either asks for its
//! details or says which search to run next. Every query is tried with the
//! year, then without it, in order, until a result is taken.

use vstd::prelude::*;
use crate::engine::clock::present_year;
use crate::engine::parser::ParsedFilename;
use crate::engine::planner::{
    best_movie_index, best_tv_index, build_movie_queries, build_tv_queries, is_reasonable_match, movie_best,
    movie_queries, reasonable_match, select_best_tv_match, text_of, tv_names_fit, tv_queries, MovieCandidate,
    TvCandidate,
};

verus! {

/// Which search of the current query comes next.
#[derive(Debug, Clone, Copy, PartialEq, Eq, Structural)]
pub enum Phase {
    /// With the parsed year.
    WithYear,
    /// Without a year.
    WithoutYear,
}

/// A TMDB search in progress: the queries, the one being tried, and which
/// of its searches was made last.
#[derive(Debug)]
pub struct SearchState {
    pub queries: Vec<String>,
    pub index: usize,
    pub phase: Phase,
}

/// The TMDB call to make next.
#[derive(Debug)]
pub enum SearchAction {
    /// Search for `query`, restricted to `year` when there is one.
    Search { query: String, year: Option<u16> },
    /// Fetch the details of the result with this id.
    Details { id: u64 },
    /// No result fits any query.
    NotFound,
}

pub open spec fn query_views(v: Seq<String>) -> Seq<Seq<char>> {
    v.map_values(|q: String| q@)
}

/// The search that tries query `i`: with the year when `with_year` holds
/// (movies only search with a year they have; TV shows always pass theirs).
pub open spec fn tries(a: SearchAction, queries: Seq<Seq<char>>, i: int, year: Option<u16>) -> bool {
    a matches SearchAction::Search { query, year: y } && query@ == queries[i] && y == year
}

/// After the searches of query `i` gave nothing: the next query, with
/// `first_phase` and `first_year`, or no match when it was the last one.
pub open spec fn moves_on(
    before: SearchState,
    r: (SearchState, SearchAction),
    first_phase: Phase,
    first_year: Option<u16>,
) -> bool {
    let qs = query_views(before.queries@);
    let i = before.index as int;
    if i + 1 < qs.len() {
        &&& query_views(r.0.queries@) == qs
        &&& r.0.index == i + 1
        &&& r.0.phase == first_phase
        &&& tries(r.1, qs, i + 1, first_year)
    } else {
        r.1 is NotFound
    }
}

/// After query `i` with the year gave nothing: the same query without it.
pub open spec fn drops_year(before: SearchState, r: (SearchState, SearchAction)) -> bool {
    &&& query_views(r.0.queries@) == query_views(before.queries@)
    &&& r.0.index == before.index
    &&& r.0.phase == Phase::WithoutYear
    &&& tries(r.1, query_views(before.queries@), before.index as int, None)
}

/// How a movie search starts: no match without TMDB access or queries;
/// else the first query, with the year when the filename gave one.
pub open spec fn movie_first_phase(parsed: ParsedFilename) -> Phase {
    if parsed.year is Some {
        Phase::WithYear
    } else {
        Phase::WithoutYear
    }
}

fn start(queries: Vec<String>, phase: Phase, year: Option<u16>, has_tmdb: bool) -> (r: (SearchState, SearchAction))
    ensures
        !has_tmdb || queries@.len() == 0 ==> r.1 is NotFound,
        has_tmdb && queries@.len() > 0 ==> query_views(r.0.queries@) == query_views(queries@) && r.0.index == 0
            && r.0.phase == phase && tries(r.1, query_views(queries@), 0, year),
{
    if !has_tmdb || queries.len() == 0 {
        return (SearchState { queries, index: 0, phase }, SearchAction::NotFound);
    }
    let query = queries[0].clone();
    (SearchState { queries, index: 0, phase }, SearchAction::Search { query, year })
}

fn next_query(state: SearchState, first_phase: Phase, first_year: Option<u16>) -> (r: (SearchState, SearchAction))
    requires
        state.index < state.queries@.len(),
    ensures
        moves_on(state, r, first_phase, first_year),
{
    let n = state.queries.len();
    let i = state.index + 1;
    if i < n {
        let query = state.queries[i].clone();
        let s = SearchState { queries: state.queries, index: i, phase: first_phase };
        (s, SearchAction::Search { query, year: first_year })
    } else {
        (state, SearchAction::NotFound)
    }
}

fn without_year(state: SearchState) -> (r: (SearchState, SearchAction))
    requires
        state.index < state.queries@.len(),
    ensures
        drops_year(state, r),
{
    let query = state.queries[state.index].clone();
    let i = state.index;
    (SearchState { queries: state.queries, index: i, phase: Phase::WithoutYear }, SearchAction::Search {
        query,
        year: None,
    })
}

/// Start the movie search of a parsed filename (see `movie_queries`).
pub fn movie_search_start(parsed: &ParsedFilename, has_tmdb: bool) -> (r: (SearchState, SearchAction))
    ensures
        ({
            let qs = movie_queries(text_of(parsed.title), text_of(parsed.original_title));
            &&& !has_tmdb || qs.len() == 0 ==> r.1 is NotFound
            &&& has_tmdb && qs.len() > 0 ==> query_views(r.0.queries@) == qs && r.0.index == 0 && r.0.phase
                == movie_first_phase(*parsed) && tries(r.1, qs, 0, parsed.year)
        }),
{
    let queries = build_movie_queries(parsed);
    let phase = if parsed.year.is_some() {
        Phase::WithYear
    } else {
        Phase::WithoutYear
    };
    start(queries, phase, parsed.year, has_tmdb)
}

/// The movie result taken for query `q`: the best result for the year
/// `current` (see `movie_best`), if its titles fit the query.
pub open spec fn movie_taken(q: Seq<char>, results: Seq<MovieCandidate>, current: u16) -> Option<u64> {
    if results.len() > 0 {
        let b = results[movie_best(q, results, current).1];
        if reasonable_match(q, b.title@, b.original_title@) {
            Some(b.id)
        } else {
            None
        }
    } else {
        None
    }
}

/// The next step of a movie search, given the results of the last search
/// and the present year `current`: the details of the result taken, else
/// the same query without the year, else the next query.
pub fn movie_search_step_at(
    state: SearchState,
    parsed: &ParsedFilename,
    results: &Vec<MovieCandidate>,
    current: u16,
) -> (r: (SearchState, SearchAction))
    requires
        state.index < state.queries@.len(),
        current < 0xffff,
    ensures
        ({
            let q = query_views(state.queries@)[state.index as int];
            match movie_taken(q, results@, current) {
                Some(id) => r.1 == SearchAction::Details { id },
                None => if state.phase == Phase::WithYear {
                    drops_year(state, r)
                } else {
                    moves_on(state, r, movie_first_phase(*parsed), parsed.year)
                },
            }
        }),
{
    if results.len() > 0 {
        let b = best_movie_index(results, state.queries[state.index].as_str(), current);
        let c = &results[b];
        if is_reasonable_match(state.queries[state.index].as_str(), c.title.as_str(), c.original_title.as_str()) {
            return (state, SearchAction::Details { id: c.id });
        }
    }
    if state.phase == Phase::WithYear {
        without_year(state)
    } else {
        let phase = if parsed.year.is_some() {
            Phase::WithYear
        } else {
            Phase::WithoutYear
        };
        next_query(state, phase, parsed.year)
    }
}

/// The next step of a movie search, for the present year.
pub fn movie_search_step(state: SearchState, parsed: &ParsedFilename, results: &Vec<MovieCandidate>) -> (r: (
    SearchState,
    SearchAction,
))
    requires
        state.index < state.queries@.len(),
    ensures
        exists|current: u16|
            #![trigger movie_taken(query_views(state.queries@)[state.index as int], results@, current)]
            current < 0xffff && match movie_taken(
                query_views(state.queries@)[state.index as int],
                results@,
                current,
            ) {
                Some(id) => r.1 == SearchAction::Details { id },
                None => if state.phase == Phase::WithYear {
                    drops_year(state, r)
                } else {
                    moves_on(state, r, movie_first_phase(*parsed), parsed.year)
                },
            },
{
    let c = present_year();
    let ghost q = query_views(state.queries@)[state.index as int];
    let r = movie_search_step_at(state, parsed, results, c);
    assert(movie_taken(q, results@, c) == movie_taken(q, results@, c));
    r
}

/// Start the TV show search of a parsed filename, with the directory's
/// name as a further query (see `tv_queries`); every first search passes
/// the parsed year, whether or not there is one.
pub fn tv_search_start(parsed: &ParsedFilename, folder: Option<&str>, has_tmdb: bool) -> (r: (
    SearchState,
    SearchAction,
))
    ensures
        ({
            let qs = tv_queries(
                text_of(parsed.title),
                text_of(parsed.original_title),
                match folder {
                    Some(f) => Some(f@),
                    None => None,
                },
            );
            &&& !has_tmdb || qs.len() == 0 ==> r.1 is NotFound
            &&& has_tmdb && qs.len() > 0 ==> query_views(r.0.queries@) == qs && r.0.index == 0 && r.0.phase
                == Phase::WithYear && tries(r.1, qs, 0, parsed.year)
        }),
{
    let queries = build_tv_queries(parsed, folder);
    start(queries, Phase::WithYear, parsed.year, has_tmdb)
}

/// The next step of a TV show search, given the results of the last
/// search: the details of the best result (see `best_tv_index`), else the
/// same query without the year, else the next query.
pub fn tv_search_step(state: SearchState, parsed: &ParsedFilename, results: &Vec<TvCandidate>) -> (r: (
    SearchState,
    SearchAction,
))
    requires
        state.index < state.queries@.len(),
        tv_names_fit(state.queries@[state.index as int]@, results@),
    ensures
        ({
            let q = query_views(state.queries@)[state.index as int];
            match best_tv_index(q, results@) {
                Some(b) => r.1 == SearchAction::Details { id: results@[b].id },
                None => if state.phase == Phase::WithYear {
                    drops_year(state, r)
                } else {
                    moves_on(state, r, Phase::WithYear, parsed.year)
                },
            }
        }),
{
    match select_best_tv_match(state.queries[state.index].as_str(), results) {
        Some(b) => {
            let id = results[b].id;
            (state, SearchAction::Details { id })
        },
        None => if state.phase == Phase::WithYear {
            without_year(state)
        } else {
            next_query(state, Phase::WithYear, parsed.year)
        },
    }
}

} // verus!
