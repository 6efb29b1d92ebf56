//! Server settings.

pub mod service;
