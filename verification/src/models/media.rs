//! Media-related data models.

use vstd::prelude::*;

verus! {

/// Media type.
#[derive(Debug, Clone, Copy, PartialEq, Eq, Structural)]
pub enum MediaType {
    Movies,
    TvShows,
}

impl MediaType {
    /// The lowercase name of the media type (`movies` / `tvshows`).
    pub fn to_display_string(&self) -> (r: String)
        ensures
            r@ == (match self {
                MediaType::Movies => "movies"@,
                MediaType::TvShows => "tvshows"@,
            }),
    {
        match self {
            MediaType::Movies => "movies".to_string(),
            MediaType::TvShows => "tvshows".to_string(),
        }
    }
}

/// Technical metadata of a video stream.
#[derive(Debug, Clone)]
pub struct VideoMetadata {
    /// Resolution (e.g., "2160p", "1080p").
    pub resolution: String,
    /// Video format (e.g., "BluRay", "WEB-DL").
    pub format: String,
    /// Video codec (e.g., "hevc", "h264").
    pub video_codec: String,
    /// Bit depth (e.g., 8, 10).
    pub bit_depth: u8,
    /// Audio codec (e.g., "dts", "ac3", "aac").
    pub audio_codec: String,
    /// Audio channels (e.g., "5.1", "7.1").
    pub audio_channels: String,
}

impl Default for VideoMetadata {
    fn default() -> (r: Self)
        ensures
            r.resolution@ == Seq::<char>::empty(),
            r.format@ == Seq::<char>::empty(),
            r.video_codec@ == Seq::<char>::empty(),
            r.bit_depth == 0,
            r.audio_codec@ == Seq::<char>::empty(),
            r.audio_channels@ == Seq::<char>::empty(),
    {
        VideoMetadata {
            resolution: String::new(),
            format: String::new(),
            video_codec: String::new(),
            bit_depth: 0,
            audio_codec: String::new(),
            audio_channels: String::new(),
        }
    }
}

/// TMDB metadata for a movie.
#[derive(Debug, Clone)]
pub struct MovieMetadata {
    pub tmdb_id: u64,
    pub imdb_id: Option<String>,
    /// Original title (usually English).
    pub original_title: String,
    /// Localized title.
    pub title: String,
    pub original_language: String,
    pub year: u16,
    /// Full release date (YYYY-MM-DD).
    pub release_date: Option<String>,
    pub overview: Option<String>,
    pub tagline: Option<String>,
    /// Runtime in minutes.
    pub runtime: Option<u32>,
    pub genres: Vec<String>,
    /// Production countries (names).
    pub countries: Vec<String>,
    /// Production countries (ISO 3166-1 codes, parallel to `countries`).
    pub country_codes: Vec<String>,
    pub studios: Vec<String>,
    /// User rating (0-10) in hundredths of a point.
    pub rating: Option<u32>,
    pub votes: Option<u32>,
    pub poster_urls: Vec<String>,
    pub backdrop_url: Option<String>,
    pub directors: Vec<String>,
    pub writers: Vec<String>,
    pub actors: Vec<String>,
    /// Actor roles (parallel to actors).
    pub actor_roles: Vec<String>,
    pub certification: Option<String>,
}

impl Default for MovieMetadata {
    fn default() -> (r: Self)
        ensures
            r.tmdb_id == 0,
            r.original_title@ == Seq::<char>::empty(),
            r.title@ == Seq::<char>::empty(),
            r.original_language@ == Seq::<char>::empty(),
            r.year == 0,
            r.imdb_id is None,
            r.countries@.len() == 0,
            r.country_codes@.len() == 0,
            r.poster_urls@.len() == 0,
    {
        MovieMetadata {
            tmdb_id: 0,
            imdb_id: None,
            original_title: String::new(),
            title: String::new(),
            original_language: String::new(),
            year: 0,
            release_date: None,
            overview: None,
            tagline: None,
            runtime: None,
            genres: Vec::new(),
            countries: Vec::new(),
            country_codes: Vec::new(),
            studios: Vec::new(),
            rating: None,
            votes: None,
            poster_urls: Vec::new(),
            backdrop_url: None,
            directors: Vec::new(),
            writers: Vec::new(),
            actors: Vec::new(),
            actor_roles: Vec::new(),
            certification: None,
        }
    }
}

/// TMDB metadata for a TV show.
#[derive(Debug, Clone)]
pub struct TvShowMetadata {
    pub tmdb_id: u64,
    pub imdb_id: Option<String>,
    pub original_name: String,
    /// Localized name.
    pub name: String,
    pub original_language: String,
    /// First air year.
    pub year: u16,
    pub overview: Option<String>,
    /// Production countries (names).
    pub countries: Vec<String>,
    /// Production countries (ISO 3166-1 codes, parallel to `countries`).
    pub country_codes: Vec<String>,
    pub poster_urls: Vec<String>,
}

impl Default for TvShowMetadata {
    fn default() -> (r: Self)
        ensures
            r.tmdb_id == 0,
            r.original_name@ == Seq::<char>::empty(),
            r.name@ == Seq::<char>::empty(),
            r.original_language@ == Seq::<char>::empty(),
            r.year == 0,
            r.imdb_id is None,
            r.countries@.len() == 0,
            r.country_codes@.len() == 0,
            r.poster_urls@.len() == 0,
    {
        TvShowMetadata {
            tmdb_id: 0,
            imdb_id: None,
            original_name: String::new(),
            name: String::new(),
            original_language: String::new(),
            year: 0,
            overview: None,
            countries: Vec::new(),
            country_codes: Vec::new(),
            poster_urls: Vec::new(),
        }
    }
}

/// TMDB metadata for a TV episode.
#[derive(Debug, Clone)]
pub struct EpisodeMetadata {
    pub season_number: u16,
    pub episode_number: u16,
    pub name: String,
    pub original_name: Option<String>,
    pub air_date: Option<String>,
    pub overview: Option<String>,
}

impl Default for EpisodeMetadata {
    fn default() -> (r: Self)
        ensures
            r.season_number == 0,
            r.episode_number == 0,
            r.name@ == Seq::<char>::empty(),
            r.original_name is None,
            r.air_date is None,
            r.overview is None,
    {
        EpisodeMetadata {
            season_number: 0,
            episode_number: 0,
            name: String::new(),
            original_name: None,
            air_date: None,
            overview: None,
        }
    }
}

} // verus!
