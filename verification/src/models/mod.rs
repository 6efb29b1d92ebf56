//! Records the server stores and answers with.

pub mod file;
pub mod series;
pub mod download;
