pub mod index;
pub mod keymap;
pub mod media;
pub mod plan;
pub mod rollback;
pub mod index_ops;
pub mod config;
