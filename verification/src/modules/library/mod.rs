//! Media libraries: scanning them and browsing what they hold.

pub mod scanner;
pub mod service;
