pub mod types;
pub mod source;
pub mod merge;
pub mod env_source;
pub mod file_source;
pub mod sqlite_source;
