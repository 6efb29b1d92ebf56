//! Downloads: over HTTP, through aria2, or by BitTorrent.

pub mod aria2;
pub mod bittorrent;
pub mod client;
pub mod handler;
pub mod service;
