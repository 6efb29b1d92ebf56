//! Verified core of the Lumina media server: configuration, path and
//! file-name rules, media classification, range requests, pagination,
//! download bookkeeping and the library scan state machine.

pub mod text;
pub mod sort;
pub mod num;
pub mod path;
pub mod error;
pub mod config;
pub mod digest;
pub mod models;
pub mod modules;
pub mod db;
pub mod middleware;
