//! Configuration model.

use vstd::prelude::*;
use crate::engine::indexer::{join_path, path_join};

verus! {

/// Application configuration.
#[derive(Debug, Clone)]
pub struct Config {
    /// Ollama configuration.
    pub ollama: OllamaConfig,
    /// TMDB configuration.
    pub tmdb: TmdbConfig,
    /// Sessions directory.
    pub sessions_dir: String,
}

/// Ollama configuration.
#[derive(Debug, Clone)]
pub struct OllamaConfig {
    /// Ollama host.
    pub host: String,
    /// Ollama port.
    pub port: u16,
    /// Model to use.
    pub model: String,
    /// Request timeout in seconds.
    pub timeout: u64,
}

/// TMDB configuration.
#[derive(Debug, Clone)]
pub struct TmdbConfig {
    /// API key.
    pub api_key: Option<String>,
    /// Language for responses.
    pub language: String,
}

impl Default for OllamaConfig {
    fn default() -> (r: Self)
        ensures
            r.host@ == "localhost"@,
            r.port == 11434,
            r.model@ == "qwen2.5:7b"@,
            r.timeout == 60,
    {
        OllamaConfig {
            host: "localhost".to_string(),
            port: 11434,
            model: "qwen2.5:7b".to_string(),
            timeout: 60,
        }
    }
}

impl TmdbConfig {
    /// The TMDB settings with the given API key (read from `TMDB_API_KEY`
    /// by the caller) and Chinese responses.
    pub fn with_api_key(api_key: Option<String>) -> (r: Self)
        ensures
            r.api_key == api_key,
            r.language@ == "zh-CN"@,
    {
        TmdbConfig { api_key, language: "zh-CN".to_string() }
    }
}

/// The organizer's configuration directory under the user's one (or the
/// current directory when there is none).
pub open spec fn config_home(config_dir: Option<Seq<char>>) -> Seq<char> {
    path_join(
        match config_dir {
            Some(c) => c,
            None => "."@,
        },
        "media_organizer"@,
    )
}

/// The organizer's configuration directory.
pub fn config_home_in(config_dir: &Option<String>) -> (r: String)
    ensures
        r@ == config_home(match config_dir {
            Some(c) => Some(c@),
            None => None,
        }),
{
    match config_dir {
        Some(c) => join_path(c.as_str(), "media_organizer"),
        None => join_path(".", "media_organizer"),
    }
}

/// Path of the configuration file.
pub fn config_file_in(config_dir: &Option<String>) -> (r: String)
    ensures
        r@ == path_join(
            config_home(match config_dir {
                Some(c) => Some(c@),
                None => None,
            }),
            "config.toml"@,
        ),
{
    let home = config_home_in(config_dir);
    join_path(home.as_str(), "config.toml")
}

impl Config {
    /// The default configuration: default Ollama and TMDB settings, and
    /// sessions kept under the organizer's configuration directory.
    pub fn defaults_in(config_dir: &Option<String>, api_key: Option<String>) -> (r: Self)
        ensures
            r.ollama.host@ == "localhost"@,
            r.ollama.port == 11434,
            r.ollama.model@ == "qwen2.5:7b"@,
            r.ollama.timeout == 60,
            r.tmdb.api_key == api_key,
            r.tmdb.language@ == "zh-CN"@,
            r.sessions_dir@ == path_join(
                config_home(match config_dir {
                    Some(c) => Some(c@),
                    None => None,
                }),
                "sessions"@,
            ),
    {
        let home = config_home_in(config_dir);
        Config {
            ollama: OllamaConfig::default(),
            tmdb: TmdbConfig::with_api_key(api_key),
            sessions_dir: join_path(home.as_str(), "sessions"),
        }
    }
}

} // verus!
