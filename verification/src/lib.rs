//! Media organizer library: filename parsing, target naming, planning,
//! rollback bookkeeping and the central index of organized media.

pub mod cli;
pub mod engine;
pub mod error;
pub mod generators;
pub mod laws;
pub mod index_laws;
pub mod naming_laws;
pub mod models;
pub mod utils;

pub use error::Error;
