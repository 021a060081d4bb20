//! What the planner keeps of TMDB details: directors, writers, cast and
//! certification, and the metadata assembled from a detail record. The
//! TMDB calls themselves are made by the caller.

use vstd::prelude::*;
use crate::utils::text::chars_of;
use crate::engine::planner::{year_from_date, year_of_date};
use crate::models::media::{MovieMetadata, TvShowMetadata};

verus! {

/// A crew member as TMDB lists it: name and job.
#[derive(Debug, Clone)]
pub struct CrewMember {
    pub name: String,
    pub job: String,
}

/// A cast member: name and character played.
#[derive(Debug, Clone)]
pub struct CastMember {
    pub name: String,
    pub character: Option<String>,
}

/// The release dates of one country: its code and the certifications.
#[derive(Debug, Clone)]
pub struct CountryReleases {
    pub iso_3166_1: String,
    pub certifications: Vec<Option<String>>,
}

pub open spec fn names_with_job(crew: Seq<CrewMember>, jobs: Seq<Seq<char>>) -> Seq<Seq<char>>
    decreases crew.len(),
{
    if crew.len() == 0 {
        seq![]
    } else {
        names_with_job(crew.drop_last(), jobs) + if jobs.contains(crew.last().job@) {
            seq![crew.last().name@]
        } else {
            seq![]
        }
    }
}

pub open spec fn take_at_most<A>(s: Seq<A>, n: int) -> Seq<A> {
    if s.len() <= n {
        s
    } else {
        s.take(n)
    }
}

fn is_text(v: &String, lit: &str) -> (r: bool)
    ensures
        r == (v@ == lit@),
{
    crate::utils::text::seq_eq(&chars_of(v.as_str()), &chars_of(lit))
}

/// The crew members with one of the given jobs, at most `limit` of them,
/// in crew order.
fn crew_with_jobs(crew: &Vec<CrewMember>, job_a: &str, job_b: Option<&str>, limit: usize) -> (r: Vec<String>)
    ensures
        r@.map_values(|s: String| s@) == take_at_most(
            names_with_job(
                crew@,
                match job_b {
                    Some(b) => seq![job_a@, b@],
                    None => seq![job_a@],
                },
            ),
            limit as int,
        ),
{
    let ghost jobs = match job_b {
        Some(b) => seq![job_a@, b@],
        None => seq![job_a@],
    };
    let mut out: Vec<String> = Vec::new();
    let mut i: usize = 0;
    while i < crew.len()
        invariant
            i <= crew@.len(),
            jobs == match job_b {
                Some(b) => seq![job_a@, b@],
                None => seq![job_a@],
            },
            out@.len() <= limit,
            out@.map_values(|s: String| s@) == take_at_most(names_with_job(crew@.take(i as int), jobs), limit as int),
        decreases crew@.len() - i,
    {
        let ghost prev = names_with_job(crew@.take(i as int), jobs);
        assert(crew@.take(i + 1).drop_last() =~= crew@.take(i as int));
        let m = &crew[i];
        let hit = is_text(&m.job, job_a) || match job_b {
            Some(b) => is_text(&m.job, b),
            None => false,
        };
        proof {
            if hit {
                if m.job@ == job_a@ {
                    assert(jobs[0] == m.job@);
                } else {
                    assert(jobs[1] == m.job@);
                }
            } else {
                assert forall|k: int| 0 <= k < jobs.len() implies jobs[k] != m.job@ by {}
            }
        }
        let ghost next = names_with_job(crew@.take(i + 1), jobs);
        if hit && out.len() < limit {
            let ghost before = out@;
            out.push(m.name.clone());
            assert(out@.map_values(|s: String| s@) =~= before.map_values(|s: String| s@).push(m.name@));
            assert(next =~= prev.push(m.name@));
            assert(take_at_most(next, limit as int) =~= take_at_most(prev, limit as int).push(m.name@));
        } else if hit {
            assert(next =~= prev.push(m.name@));
            assert(take_at_most(next, limit as int) =~= take_at_most(prev, limit as int));
        } else {
            assert(next =~= prev);
        }
        i = i + 1;
    }
    assert(crew@.take(crew@.len() as int) =~= crew@);
    out
}

/// The directors among the crew.
pub fn directors_of(crew: &Vec<CrewMember>) -> (r: Vec<String>)
    ensures
        r@.map_values(|s: String| s@) == names_with_job(crew@, seq!["Director"@]),
{
    let n: usize = crew.len();
    let r = crew_with_jobs(crew, "Director", None, usize::MAX);
    proof {
        lemma_names_len(crew@, seq!["Director"@]);
        assert(names_with_job(crew@, seq!["Director"@]).len() <= n);
    }
    r
}

/// The first five writers (jobs `Writer` or `Screenplay`) among the crew.
pub fn writers_of(crew: &Vec<CrewMember>) -> (r: Vec<String>)
    ensures
        r@.map_values(|s: String| s@) == take_at_most(names_with_job(crew@, seq!["Writer"@, "Screenplay"@]), 5),
{
    crew_with_jobs(crew, "Writer", Some("Screenplay"), 5)
}

proof fn lemma_names_len(crew: Seq<CrewMember>, jobs: Seq<Seq<char>>)
    ensures
        names_with_job(crew, jobs).len() <= crew.len(),
    decreases crew.len(),
{
    if crew.len() > 0 {
        lemma_names_len(crew.drop_last(), jobs);
    }
}

/// The first fifteen cast members: their names, and the characters they
/// play (empty when unknown).
pub fn actors_of(cast: &Vec<CastMember>) -> (r: (Vec<String>, Vec<String>))
    ensures
        r.0@.len() == r.1@.len(),
        r.0@.len() == take_at_most(cast@, 15).len(),
        forall|k: int| 0 <= k < r.0@.len() ==> #[trigger] r.0@[k]@ == cast@[k].name@,
        forall|k: int| 0 <= k < r.1@.len() ==> #[trigger] r.1@[k]@ == match cast@[k].character {
            Some(c) => c@,
            None => Seq::<char>::empty(),
        },
{
    let mut names: Vec<String> = Vec::new();
    let mut roles: Vec<String> = Vec::new();
    let mut i: usize = 0;
    while i < cast.len() && i < 15
        invariant
            i <= cast@.len(),
            i <= 15,
            names@.len() == i,
            roles@.len() == i,
            forall|k: int| 0 <= k < i ==> #[trigger] names@[k]@ == cast@[k].name@,
            forall|k: int| 0 <= k < i ==> #[trigger] roles@[k]@ == match cast@[k].character {
                Some(c) => c@,
                None => Seq::<char>::empty(),
            },
        decreases cast@.len() - i,
    {
        names.push(cast[i].name.clone());
        let role = match &cast[i].character {
            Some(c) => c.clone(),
            None => String::new(),
        };
        roles.push(role);
        i = i + 1;
    }
    (names, roles)
}

/// The first non-empty certification of a country's release dates.
pub open spec fn first_certification(certs: Seq<Option<String>>) -> Option<Seq<char>>
    decreases certs.len(),
{
    if certs.len() == 0 {
        None
    } else {
        match certs[0] {
            Some(c) if c@.len() > 0 => Some(c@),
            _ => first_certification(certs.drop_first()),
        }
    }
}

/// The releases of the first country listed with this code.
pub open spec fn country_entry(results: Seq<CountryReleases>, code: Seq<char>) -> Option<CountryReleases>
    decreases results.len(),
{
    if results.len() == 0 {
        None
    } else if results[0].iso_3166_1@ == code {
        Some(results[0])
    } else {
        country_entry(results.drop_first(), code)
    }
}

pub open spec fn certification_in(results: Seq<CountryReleases>, code: Seq<char>) -> Option<Seq<char>> {
    match country_entry(results, code) {
        Some(c) => first_certification(c.certifications@),
        None => None,
    }
}

/// The certification of a movie: the US one, else the CN one.
pub open spec fn movie_certification(results: Seq<CountryReleases>) -> Option<Seq<char>> {
    match certification_in(results, "US"@) {
        Some(c) => Some(c),
        None => certification_in(results, "CN"@),
    }
}

fn first_certification_exec(certs: &Vec<Option<String>>) -> (r: Option<String>)
    ensures
        match r {
            Some(c) => first_certification(certs@) == Some(c@),
            None => first_certification(certs@) is None,
        },
{
    let mut i: usize = 0;
    assert(certs@.subrange(0, certs@.len() as int) =~= certs@);
    while i < certs.len()
        invariant
            i <= certs@.len(),
            first_certification(certs@) == first_certification(certs@.subrange(i as int, certs@.len() as int)),
        decreases certs@.len() - i,
    {
        let ghost rest = certs@.subrange(i as int, certs@.len() as int);
        assert(rest.drop_first() =~= certs@.subrange(i + 1, certs@.len() as int));
        match &certs[i] {
            Some(c) => {
                if chars_of(c.as_str()).len() > 0 {
                    return Some(c.clone());
                }
            },
            None => {},
        }
        i = i + 1;
    }
    None
}

fn certification_in_exec(results: &Vec<CountryReleases>, code: &str) -> (r: Option<String>)
    ensures
        match r {
            Some(c) => certification_in(results@, code@) == Some(c@),
            None => certification_in(results@, code@) is None,
        },
{
    let mut i: usize = 0;
    assert(results@.subrange(0, results@.len() as int) =~= results@);
    while i < results.len()
        invariant
            i <= results@.len(),
            country_entry(results@, code@) == country_entry(results@.subrange(i as int, results@.len() as int), code@),
        decreases results@.len() - i,
    {
        let ghost rest = results@.subrange(i as int, results@.len() as int);
        assert(rest.drop_first() =~= results@.subrange(i + 1, results@.len() as int));
        if is_text(&results[i].iso_3166_1, code) {
            return first_certification_exec(&results[i].certifications);
        }
        i = i + 1;
    }
    None
}

/// The certification of a movie: the US one first, then the CN one.
pub fn certification_of(results: &Vec<CountryReleases>) -> (r: Option<String>)
    ensures
        match r {
            Some(c) => movie_certification(results@) == Some(c@),
            None => movie_certification(results@) is None,
        },
{
    match certification_in_exec(results, "US") {
        Some(c) => Some(c),
        None => certification_in_exec(results, "CN"),
    }
}

/// A production country as TMDB lists it: ISO 3166-1 code and name.
#[derive(Debug, Clone)]
pub struct ProductionCountry {
    pub iso_3166_1: String,
    pub name: String,
}

/// The names and the codes of the production countries, in TMDB's order
/// (the two lists run in parallel).
pub fn country_lists(countries: &Vec<ProductionCountry>) -> (r: (Vec<String>, Vec<String>))
    ensures
        r.0@.map_values(|s: String| s@) == countries@.map_values(|c: ProductionCountry| c.name@),
        r.1@.map_values(|s: String| s@) == countries@.map_values(|c: ProductionCountry| c.iso_3166_1@),
{
    let mut names: Vec<String> = Vec::new();
    let mut codes: Vec<String> = Vec::new();
    let mut i: usize = 0;
    while i < countries.len()
        invariant
            i <= countries@.len(),
            names@.map_values(|s: String| s@) == countries@.take(i as int).map_values(
                |c: ProductionCountry| c.name@,
            ),
            codes@.map_values(|s: String| s@) == countries@.take(i as int).map_values(
                |c: ProductionCountry| c.iso_3166_1@,
            ),
        decreases countries@.len() - i,
    {
        let ghost (n0, c0) = (names@, codes@);
        names.push(countries[i].name.clone());
        codes.push(countries[i].iso_3166_1.clone());
        assert(names@.map_values(|s: String| s@) =~= n0.map_values(|s: String| s@).push(countries@[i as int].name@));
        assert(codes@.map_values(|s: String| s@) =~= c0.map_values(|s: String| s@).push(
            countries@[i as int].iso_3166_1@,
        ));
        assert(countries@.take(i + 1).map_values(|c: ProductionCountry| c.name@) =~= countries@.take(
            i as int,
        ).map_values(|c: ProductionCountry| c.name@).push(countries@[i as int].name@));
        assert(countries@.take(i + 1).map_values(|c: ProductionCountry| c.iso_3166_1@) =~= countries@.take(
            i as int,
        ).map_values(|c: ProductionCountry| c.iso_3166_1@).push(countries@[i as int].iso_3166_1@));
        i = i + 1;
    }
    assert(countries@.take(countries@.len() as int) =~= countries@);
    (names, codes)
}

/// The studios kept of the production companies: the first three names.
pub fn studios_of(companies: &Vec<String>) -> (r: Vec<String>)
    ensures
        r@.map_values(|s: String| s@) == take_at_most(companies@.map_values(|s: String| s@), 3),
{
    let mut out: Vec<String> = Vec::new();
    let mut i: usize = 0;
    while i < companies.len() && i < 3
        invariant
            i <= companies@.len(),
            i <= 3,
            out@.map_values(|s: String| s@) == companies@.take(i as int).map_values(|s: String| s@),
        decreases companies@.len() - i,
    {
        let ghost o0 = out@;
        out.push(companies[i].clone());
        assert(out@.map_values(|s: String| s@) =~= o0.map_values(|s: String| s@).push(companies@[i as int]@));
        assert(companies@.take(i + 1).map_values(|s: String| s@) =~= companies@.take(i as int).map_values(
            |s: String| s@,
        ).push(companies@[i as int]@));
        i = i + 1;
    }
    assert(companies@.map_values(|s: String| s@).take(i as int) =~= companies@.take(i as int).map_values(
        |s: String| s@,
    ));
    assert(companies@.take(companies@.len() as int) =~= companies@);
    out
}

/// The address of a TMDB image of the given size (`w500`, `original`, ...).
pub open spec fn image_url(size: Seq<char>, path: Seq<char>) -> Seq<char> {
    "https://image.tmdb.org/t/p/"@ + size + path
}

/// The address of a TMDB image of the given size.
pub fn tmdb_image_url(size: &str, path: &str) -> (r: String)
    ensures
        r@ == image_url(size@, path@),
{
    let mut v = chars_of("https://image.tmdb.org/t/p/");
    crate::utils::text::push_str(&mut v, size);
    crate::utils::text::push_str(&mut v, path);
    crate::utils::text::string_of(&v)
}

/// The poster addresses of a work: the poster of the given size, when it
/// has one.
pub fn poster_urls_of(poster_path: &Option<String>, size: &str) -> (r: Vec<String>)
    ensures
        r@.map_values(|s: String| s@) == match poster_path {
            Some(p) => seq![image_url(size@, p@)],
            None => Seq::<Seq<char>>::empty(),
        },
{
    let mut out: Vec<String> = Vec::new();
    match poster_path {
        Some(p) => {
            out.push(tmdb_image_url(size, p.as_str()));
            assert(out@.map_values(|s: String| s@) =~= seq![image_url(size@, p@)]);
        },
        None => {
            assert(out@.map_values(|s: String| s@) =~= Seq::<Seq<char>>::empty());
        },
    }
    out
}

/// The backdrop address of a work, at its original size.
pub fn backdrop_url_of(backdrop_path: &Option<String>) -> (r: Option<String>)
    ensures
        match r {
            Some(u) => backdrop_path matches Some(p) && u@ == image_url("original"@, p@),
            None => backdrop_path is None,
        },
{
    match backdrop_path {
        Some(p) => Some(tmdb_image_url("original", p.as_str())),
        None => None,
    }
}

/// A date as the specs read it.
pub open spec fn date_view(d: Option<String>) -> Option<Seq<char>> {
    match d {
        Some(s) => Some(s@),
        None => None,
    }
}

/// The details of a movie as TMDB gives them, with the credits and release
/// dates appended; an absent list is empty, and the rating is held in
/// hundredths of a point.
#[derive(Debug, Clone)]
pub struct MovieDetailsRecord {
    pub id: u64,
    pub imdb_id: Option<String>,
    pub original_title: String,
    pub title: String,
    pub original_language: String,
    pub release_date: Option<String>,
    pub overview: Option<String>,
    pub tagline: Option<String>,
    pub runtime: Option<u32>,
    pub genres: Vec<String>,
    pub production_countries: Vec<ProductionCountry>,
    /// The names of the production companies, in TMDB's order.
    pub production_companies: Vec<String>,
    pub vote_average: Option<u32>,
    pub vote_count: Option<u32>,
    pub poster_path: Option<String>,
    pub backdrop_path: Option<String>,
    pub crew: Vec<CrewMember>,
    pub cast: Vec<CastMember>,
    pub release_dates: Vec<CountryReleases>,
}

/// The movie metadata kept of a detail record: the record's own fields,
/// the year of its release date, its genres and production countries, the
/// first three studios, the directors, the first five writers, the first
/// fifteen actors with their roles, the US or else CN certification, the
/// poster at `poster_size` and the backdrop at its original size.
pub fn movie_metadata_of(d: MovieDetailsRecord, poster_size: &str) -> (r: MovieMetadata)
    ensures
        r.tmdb_id == d.id,
        r.imdb_id == d.imdb_id,
        r.original_title == d.original_title,
        r.title == d.title,
        r.original_language == d.original_language,
        r.year == year_of_date(date_view(d.release_date)),
        r.release_date == d.release_date,
        r.overview == d.overview,
        r.tagline == d.tagline,
        r.runtime == d.runtime,
        r.genres == d.genres,
        r.countries@.map_values(|s: String| s@) == d.production_countries@.map_values(
            |c: ProductionCountry| c.name@,
        ),
        r.country_codes@.map_values(|s: String| s@) == d.production_countries@.map_values(
            |c: ProductionCountry| c.iso_3166_1@,
        ),
        r.studios@.map_values(|s: String| s@) == take_at_most(
            d.production_companies@.map_values(|s: String| s@),
            3,
        ),
        r.rating == d.vote_average,
        r.votes == d.vote_count,
        r.poster_urls@.map_values(|s: String| s@) == match d.poster_path {
            Some(p) => seq![image_url(poster_size@, p@)],
            None => Seq::<Seq<char>>::empty(),
        },
        match r.backdrop_url {
            Some(u) => d.backdrop_path matches Some(p) && u@ == image_url("original"@, p@),
            None => d.backdrop_path is None,
        },
        r.directors@.map_values(|s: String| s@) == names_with_job(d.crew@, seq!["Director"@]),
        r.writers@.map_values(|s: String| s@) == take_at_most(
            names_with_job(d.crew@, seq!["Writer"@, "Screenplay"@]),
            5,
        ),
        r.actors@.len() == r.actor_roles@.len(),
        r.actors@.len() == take_at_most(d.cast@, 15).len(),
        forall|k: int| 0 <= k < r.actors@.len() ==> #[trigger] r.actors@[k]@ == d.cast@[k].name@,
        forall|k: int| 0 <= k < r.actor_roles@.len() ==> #[trigger] r.actor_roles@[k]@ == match d.cast@[k].character {
            Some(c) => c@,
            None => Seq::<char>::empty(),
        },
        match r.certification {
            Some(c) => movie_certification(d.release_dates@) == Some(c@),
            None => movie_certification(d.release_dates@) is None,
        },
{
    let year = year_from_date(&d.release_date);
    let directors = directors_of(&d.crew);
    let writers = writers_of(&d.crew);
    let (actors, actor_roles) = actors_of(&d.cast);
    let (countries, country_codes) = country_lists(&d.production_countries);
    let studios = studios_of(&d.production_companies);
    let certification = certification_of(&d.release_dates);
    let poster_urls = poster_urls_of(&d.poster_path, poster_size);
    let backdrop_url = backdrop_url_of(&d.backdrop_path);
    MovieMetadata {
        tmdb_id: d.id,
        imdb_id: d.imdb_id,
        original_title: d.original_title,
        title: d.title,
        original_language: d.original_language,
        year,
        release_date: d.release_date,
        overview: d.overview,
        tagline: d.tagline,
        runtime: d.runtime,
        genres: d.genres,
        countries,
        country_codes,
        studios,
        rating: d.vote_average,
        votes: d.vote_count,
        poster_urls,
        backdrop_url,
        directors,
        writers,
        actors,
        actor_roles,
        certification,
    }
}

/// The details of a TV show as TMDB gives them, with its external ids
/// appended: what the show's metadata keeps.
#[derive(Debug, Clone)]
pub struct TvDetailsRecord {
    pub id: u64,
    pub imdb_id: Option<String>,
    pub original_name: String,
    pub name: String,
    pub original_language: String,
    pub first_air_date: Option<String>,
    pub overview: Option<String>,
    pub production_countries: Vec<ProductionCountry>,
    pub poster_path: Option<String>,
}

/// The TV show metadata kept of a detail record: the record's own fields,
/// the year of its first air date, its production countries and its
/// poster at the original size.
pub fn tvshow_metadata_of(d: TvDetailsRecord) -> (r: TvShowMetadata)
    ensures
        r.tmdb_id == d.id,
        r.imdb_id == d.imdb_id,
        r.original_name == d.original_name,
        r.name == d.name,
        r.original_language == d.original_language,
        r.year == year_of_date(date_view(d.first_air_date)),
        r.overview == d.overview,
        r.countries@.map_values(|s: String| s@) == d.production_countries@.map_values(
            |c: ProductionCountry| c.name@,
        ),
        r.country_codes@.map_values(|s: String| s@) == d.production_countries@.map_values(
            |c: ProductionCountry| c.iso_3166_1@,
        ),
        r.poster_urls@.map_values(|s: String| s@) == match d.poster_path {
            Some(p) => seq![image_url("original"@, p@)],
            None => Seq::<Seq<char>>::empty(),
        },
{
    let year = year_from_date(&d.first_air_date);
    let (countries, country_codes) = country_lists(&d.production_countries);
    let poster_urls = poster_urls_of(&d.poster_path, "original");
    TvShowMetadata {
        tmdb_id: d.id,
        imdb_id: d.imdb_id,
        original_name: d.original_name,
        name: d.name,
        original_language: d.original_language,
        year,
        overview: d.overview,
        countries,
        country_codes,
        poster_urls,
    }
}

} // verus!
