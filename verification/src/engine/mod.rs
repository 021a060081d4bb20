pub mod clock;
pub mod executor;
pub mod parser;
pub mod pattern;
pub mod prompt_text;
pub mod rollback;
pub mod indexer;
pub mod nfo;
pub mod planner;
pub mod details;
pub mod video_flow;
pub mod search_flow;
