pub mod filename;
