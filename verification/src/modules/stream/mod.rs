//! Serving media files, whole or by byte range.

pub mod service;
