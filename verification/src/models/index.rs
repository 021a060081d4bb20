//! Central index data model: disks, indexed works, collections, lookup
//! tables and statistics.

use vstd::prelude::*;
use crate::models::keymap::KeyMap;

verus! {

/// An indexed movie.
#[derive(Debug)]
pub struct MovieEntry {
    pub id: String,
    pub disk: String,
    pub disk_uuid: Option<String>,
    /// Folder of the movie, relative to the scanned path.
    pub relative_path: String,
    pub title: String,
    pub original_title: Option<String>,
    pub year: Option<u16>,
    pub tmdb_id: Option<u64>,
    pub imdb_id: Option<String>,
    pub collection_id: Option<u64>,
    pub collection_name: Option<String>,
    pub collection_total_movies: Option<u32>,
    /// ISO 3166-1 code (or the name as found when unknown).
    pub country: Option<String>,
    pub genres: Vec<String>,
    pub actors: Vec<String>,
    pub directors: Vec<String>,
    /// Runtime in minutes.
    pub runtime: Option<u32>,
    /// Rating in hundredths of a point.
    pub rating: Option<u32>,
    pub size_bytes: u64,
    pub resolution: Option<String>,
    pub indexed_at: String,
}

/// An indexed TV show.
#[derive(Debug)]
pub struct TvShowEntry {
    pub id: String,
    pub disk: String,
    pub disk_uuid: Option<String>,
    pub relative_path: String,
    pub title: String,
    pub original_title: Option<String>,
    pub year: Option<u16>,
    pub tmdb_id: Option<u64>,
    pub imdb_id: Option<String>,
    pub country: Option<String>,
    pub genres: Vec<String>,
    pub actors: Vec<String>,
    pub seasons: u32,
    pub episodes: u32,
    pub size_bytes: u64,
    pub indexed_at: String,
}

/// A disk known to the index.
#[derive(Debug)]
pub struct DiskInfo {
    pub label: String,
    pub uuid: Option<String>,
    pub last_indexed: String,
    pub movie_count: usize,
    pub tvshow_count: usize,
    pub total_size_bytes: u64,
    /// Path of the first scan (kept for older indexes).
    pub base_path: String,
    /// Scanned path by media type (`movies`, `tvshows`, ...).
    pub paths: KeyMap<String, String>,
}

/// The index of one disk, as one scan produces it.
#[derive(Debug)]
pub struct DiskIndex {
    pub version: String,
    pub disk: DiskInfo,
    pub movies: Vec<MovieEntry>,
    pub tvshows: Vec<TvShowEntry>,
}

/// A movie of a collection.
#[derive(Debug)]
pub struct CollectionMovie {
    pub tmdb_id: Option<u64>,
    pub title: String,
    pub year: Option<u16>,
    pub disk: String,
}

/// A movie collection (series) and how much of it is owned.
#[derive(Debug)]
pub struct CollectionInfo {
    pub id: u64,
    pub name: String,
    pub movies: Vec<CollectionMovie>,
    /// Number of movies in the collection (0 when unknown).
    pub total_in_collection: u32,
    pub owned_count: usize,
}

/// Lookup tables from a name, year or country to the ids of the works.
#[derive(Debug)]
pub struct Indexes {
    pub by_actor: KeyMap<String, Vec<String>>,
    pub by_director: KeyMap<String, Vec<String>>,
    pub by_genre: KeyMap<String, Vec<String>>,
    pub by_year: KeyMap<u64, Vec<String>>,
    pub by_country: KeyMap<String, Vec<String>>,
}

/// Collection statistics.
#[derive(Debug)]
pub struct Statistics {
    pub total_movies: usize,
    pub total_tvshows: usize,
    pub total_disks: usize,
    pub total_size_bytes: u64,
    pub by_country: KeyMap<String, usize>,
    /// Keyed `1990s`, `2000s`, ...
    pub by_decade: KeyMap<String, usize>,
    pub complete_collections: usize,
    pub incomplete_collections: usize,
}

/// The central index over all disks.
#[derive(Debug)]
pub struct CentralIndex {
    pub version: String,
    pub created_at: String,
    pub updated_at: String,
    pub disks: KeyMap<String, DiskInfo>,
    pub movies: Vec<MovieEntry>,
    pub tvshows: Vec<TvShowEntry>,
    pub collections: KeyMap<u64, CollectionInfo>,
    pub indexes: Indexes,
    pub statistics: Statistics,
}

impl Indexes {
    pub fn new() -> (r: Self)
        ensures
            r.by_actor.view() == Map::<Seq<char>, Vec<String>>::empty(),
            r.by_director.view() == Map::<Seq<char>, Vec<String>>::empty(),
            r.by_genre.view() == Map::<Seq<char>, Vec<String>>::empty(),
            r.by_year.view() == Map::<u64, Vec<String>>::empty(),
            r.by_country.view() == Map::<Seq<char>, Vec<String>>::empty(),
    {
        Indexes {
            by_actor: KeyMap::new(),
            by_director: KeyMap::new(),
            by_genre: KeyMap::new(),
            by_year: KeyMap::new(),
            by_country: KeyMap::new(),
        }
    }
}

impl Statistics {
    pub fn new() -> (r: Self)
        ensures
            r.total_movies == 0,
            r.total_tvshows == 0,
            r.total_disks == 0,
            r.total_size_bytes == 0,
            r.by_country.view() == Map::<Seq<char>, usize>::empty(),
            r.by_decade.view() == Map::<Seq<char>, usize>::empty(),
            r.complete_collections == 0,
            r.incomplete_collections == 0,
    {
        Statistics {
            total_movies: 0,
            total_tvshows: 0,
            total_disks: 0,
            total_size_bytes: 0,
            by_country: KeyMap::new(),
            by_decade: KeyMap::new(),
            complete_collections: 0,
            incomplete_collections: 0,
        }
    }
}

impl Default for CentralIndex {
    fn default() -> (r: Self)
        ensures
            r.disks.view() == Map::<Seq<char>, DiskInfo>::empty(),
            r.movies@.len() == 0,
            r.tvshows@.len() == 0,
            r.collections.view() == Map::<u64, CollectionInfo>::empty(),
            r.statistics.total_movies == 0,
            r.statistics.total_tvshows == 0,
            r.statistics.total_disks == 0,
    {
        CentralIndex {
            version: String::new(),
            created_at: String::new(),
            updated_at: String::new(),
            disks: KeyMap::new(),
            movies: Vec::new(),
            tvshows: Vec::new(),
            collections: KeyMap::new(),
            indexes: Indexes::new(),
            statistics: Statistics::new(),
        }
    }
}

impl DiskInfo {
    /// A disk with the given label and nothing indexed yet.
    pub fn new(label: String) -> (r: Self)
        ensures
            r.label == label,
            r.uuid is None,
            r.last_indexed@ == Seq::<char>::empty(),
            r.movie_count == 0,
            r.tvshow_count == 0,
            r.total_size_bytes == 0,
            r.base_path@ == Seq::<char>::empty(),
            r.paths.view() == Map::<Seq<char>, String>::empty(),
    {
        DiskInfo {
            label,
            uuid: None,
            last_indexed: String::new(),
            movie_count: 0,
            tvshow_count: 0,
            total_size_bytes: 0,
            base_path: String::new(),
            paths: KeyMap::new(),
        }
    }
}

impl Default for DiskIndex {
    fn default() -> (r: Self)
        ensures
            r.version@ == Seq::<char>::empty(),
            r.disk.label@ == Seq::<char>::empty(),
            r.disk.paths.view() == Map::<Seq<char>, String>::empty(),
            r.movies@.len() == 0,
            r.tvshows@.len() == 0,
    {
        DiskIndex {
            version: String::new(),
            disk: DiskInfo::new(String::new()),
            movies: Vec::new(),
            tvshows: Vec::new(),
        }
    }
}

} // verus!

verus! {

/// A copy of a list of strings.
pub fn copy_strings(v: &Vec<String>) -> (r: Vec<String>)
    ensures
        r@ == v@,
{
    let mut r: Vec<String> = Vec::new();
    let mut i: usize = 0;
    while i < v.len()
        invariant
            i <= v@.len(),
            r@ == v@.take(i as int),
        decreases v@.len() - i,
    {
        r.push(v[i].clone());
        i = i + 1;
        assert(r@ =~= v@.take(i as int));
    }
    assert(v@.take(v@.len() as int) =~= v@);
    r
}

/// A copy of an optional string.
pub fn copy_opt(o: &Option<String>) -> (r: Option<String>)
    ensures
        r == *o,
{
    match o {
        Some(s) => Some(s.clone()),
        None => None,
    }
}

/// Two movie entries that hold the same values.
pub open spec fn same_movie(a: MovieEntry, b: MovieEntry) -> bool {
    &&& a.id == b.id
    &&& a.disk == b.disk
    &&& a.disk_uuid == b.disk_uuid
    &&& a.relative_path == b.relative_path
    &&& a.title == b.title
    &&& a.original_title == b.original_title
    &&& a.year == b.year
    &&& a.tmdb_id == b.tmdb_id
    &&& a.imdb_id == b.imdb_id
    &&& a.collection_id == b.collection_id
    &&& a.collection_name == b.collection_name
    &&& a.collection_total_movies == b.collection_total_movies
    &&& a.country == b.country
    &&& a.genres@ == b.genres@
    &&& a.actors@ == b.actors@
    &&& a.directors@ == b.directors@
    &&& a.runtime == b.runtime
    &&& a.rating == b.rating
    &&& a.size_bytes == b.size_bytes
    &&& a.resolution == b.resolution
    &&& a.indexed_at == b.indexed_at
}

/// Two TV show entries that hold the same values.
pub open spec fn same_tvshow(a: TvShowEntry, b: TvShowEntry) -> bool {
    &&& a.id == b.id
    &&& a.disk == b.disk
    &&& a.disk_uuid == b.disk_uuid
    &&& a.relative_path == b.relative_path
    &&& a.title == b.title
    &&& a.original_title == b.original_title
    &&& a.year == b.year
    &&& a.tmdb_id == b.tmdb_id
    &&& a.imdb_id == b.imdb_id
    &&& a.country == b.country
    &&& a.genres@ == b.genres@
    &&& a.actors@ == b.actors@
    &&& a.seasons == b.seasons
    &&& a.episodes == b.episodes
    &&& a.size_bytes == b.size_bytes
    &&& a.indexed_at == b.indexed_at
}

/// Two collections that hold the same values.
pub open spec fn same_collection(a: CollectionInfo, b: CollectionInfo) -> bool {
    &&& a.id == b.id
    &&& a.name == b.name
    &&& a.movies@ == b.movies@
    &&& a.total_in_collection == b.total_in_collection
    &&& a.owned_count == b.owned_count
}

impl MovieEntry {
    /// A field-by-field copy.
    pub fn copy(&self) -> (r: Self)
        ensures
            same_movie(r, *self),
    {
        MovieEntry {
            id: self.id.clone(),
            disk: self.disk.clone(),
            disk_uuid: copy_opt(&self.disk_uuid),
            relative_path: self.relative_path.clone(),
            title: self.title.clone(),
            original_title: copy_opt(&self.original_title),
            year: self.year,
            tmdb_id: self.tmdb_id,
            imdb_id: copy_opt(&self.imdb_id),
            collection_id: self.collection_id,
            collection_name: copy_opt(&self.collection_name),
            collection_total_movies: self.collection_total_movies,
            country: copy_opt(&self.country),
            genres: copy_strings(&self.genres),
            actors: copy_strings(&self.actors),
            directors: copy_strings(&self.directors),
            runtime: self.runtime,
            rating: self.rating,
            size_bytes: self.size_bytes,
            resolution: copy_opt(&self.resolution),
            indexed_at: self.indexed_at.clone(),
        }
    }
}

impl TvShowEntry {
    /// A field-by-field copy.
    pub fn copy(&self) -> (r: Self)
        ensures
            same_tvshow(r, *self),
    {
        TvShowEntry {
            id: self.id.clone(),
            disk: self.disk.clone(),
            disk_uuid: copy_opt(&self.disk_uuid),
            relative_path: self.relative_path.clone(),
            title: self.title.clone(),
            original_title: copy_opt(&self.original_title),
            year: self.year,
            tmdb_id: self.tmdb_id,
            imdb_id: copy_opt(&self.imdb_id),
            country: copy_opt(&self.country),
            genres: copy_strings(&self.genres),
            actors: copy_strings(&self.actors),
            seasons: self.seasons,
            episodes: self.episodes,
            size_bytes: self.size_bytes,
            indexed_at: self.indexed_at.clone(),
        }
    }
}

impl CollectionMovie {
    /// A field-by-field copy.
    pub fn copy(&self) -> (r: Self)
        ensures
            r == *self,
    {
        CollectionMovie {
            tmdb_id: self.tmdb_id,
            title: self.title.clone(),
            year: self.year,
            disk: self.disk.clone(),
        }
    }
}

impl CollectionInfo {
    /// A field-by-field copy.
    pub fn copy(&self) -> (r: Self)
        ensures
            same_collection(r, *self),
    {
        let mut movies: Vec<CollectionMovie> = Vec::new();
        let mut i: usize = 0;
        while i < self.movies.len()
            invariant
                i <= self.movies@.len(),
                movies@ == self.movies@.take(i as int),
            decreases self.movies@.len() - i,
        {
            movies.push(self.movies[i].copy());
            i = i + 1;
            assert(movies@ =~= self.movies@.take(i as int));
        }
        assert(self.movies@.take(self.movies@.len() as int) =~= self.movies@);
        CollectionInfo {
            id: self.id,
            name: self.name.clone(),
            movies,
            total_in_collection: self.total_in_collection,
            owned_count: self.owned_count,
        }
    }
}

} // verus!
