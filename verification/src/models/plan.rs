//! Plan data model: the operations that organize each video.

use vstd::prelude::*;
use crate::models::media::{EpisodeMetadata, MediaType, MovieMetadata, TvShowMetadata, VideoMetadata};

verus! {

/// Video file information.
#[derive(Debug, Clone)]
pub struct VideoFile {
    /// Full path to the file.
    pub path: String,
    /// File name without path.
    pub filename: String,
    /// File size in bytes.
    pub size: u64,
    /// Last modified time (RFC 3339).
    pub modified: String,
    /// Whether this is a sample file.
    pub is_sample: bool,
    /// Parent directory.
    pub parent_dir: String,
}

impl VideoFile {
    /// A field-by-field copy.
    pub fn copy(&self) -> (r: Self)
        ensures
            r == *self,
    {
        VideoFile {
            path: self.path.clone(),
            filename: self.filename.clone(),
            size: self.size,
            modified: self.modified.clone(),
            is_sample: self.is_sample,
            parent_dir: self.parent_dir.clone(),
        }
    }
}

/// Status of a plan item.
#[derive(Debug, Clone, Copy, PartialEq, Eq, Structural)]
pub enum PlanItemStatus {
    Pending,
    Completed,
    Failed,
    Skipped,
}

/// Kind of a plan operation.
#[derive(Debug, Clone, Copy, PartialEq, Eq, Structural)]
pub enum OperationType {
    Mkdir,
    Move,
    Create,
    Download,
}

/// One file-system operation of a plan item.
#[derive(Debug, Clone)]
pub struct Operation {
    pub op: OperationType,
    pub from: Option<String>,
    pub to: String,
    pub url: Option<String>,
    /// What generates the content of a created file (`nfo`).
    pub content_ref: Option<String>,
}

/// What was read from the filename. `confidence` is in thousandths.
#[derive(Debug, Clone)]
pub struct ParsedInfo {
    pub title: Option<String>,
    pub original_title: Option<String>,
    pub year: Option<u16>,
    pub confidence: u32,
    pub raw_response: Option<String>,
}

/// Where a video goes.
#[derive(Debug, Clone)]
pub struct TargetInfo {
    /// Folder, relative to the country folder.
    pub folder: String,
    pub filename: String,
    pub full_path: String,
    pub nfo: String,
    pub poster: Option<String>,
}

/// A video to organize.
#[derive(Debug, Clone)]
pub struct PlanItem {
    pub id: String,
    pub status: PlanItemStatus,
    pub source: VideoFile,
    pub parsed: ParsedInfo,
    pub movie_metadata: Option<MovieMetadata>,
    pub tvshow_metadata: Option<TvShowMetadata>,
    pub episode_metadata: Option<EpisodeMetadata>,
    pub video_metadata: VideoMetadata,
    pub target: TargetInfo,
    pub operations: Vec<Operation>,
}

/// A sample file and where it goes.
#[derive(Debug, Clone)]
pub struct SampleItem {
    pub source: String,
    pub target: String,
}

/// A video that could not be identified.
#[derive(Debug, Clone)]
pub struct UnknownItem {
    pub source: VideoFile,
    pub reason: String,
}

/// An organization plan.
#[derive(Debug, Clone)]
pub struct Plan {
    pub version: String,
    pub created_at: String,
    pub media_type: Option<MediaType>,
    pub source_path: String,
    pub target_path: String,
    pub items: Vec<PlanItem>,
    pub samples: Vec<SampleItem>,
    pub unknown: Vec<UnknownItem>,
}

impl Default for Plan {
    fn default() -> (r: Self)
        ensures
            r.version@ == Seq::<char>::empty(),
            r.created_at@ == Seq::<char>::empty(),
            r.media_type is None,
            r.source_path@ == Seq::<char>::empty(),
            r.target_path@ == Seq::<char>::empty(),
            r.items@.len() == 0,
            r.samples@.len() == 0,
            r.unknown@.len() == 0,
    {
        Plan {
            version: String::new(),
            created_at: String::new(),
            media_type: None,
            source_path: String::new(),
            target_path: String::new(),
            items: Vec::new(),
            samples: Vec::new(),
            unknown: Vec::new(),
        }
    }
}

} // verus!
