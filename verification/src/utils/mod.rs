pub mod chinese;
pub mod fs;
pub mod text;
