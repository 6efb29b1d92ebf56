//! Browsing and managing files under the media root.

pub mod service;
pub mod handler;
