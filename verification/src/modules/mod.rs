//! The server's feature areas.

pub mod files;
pub mod stream;
pub mod library;
pub mod download;
pub mod system;
