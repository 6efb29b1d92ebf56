//! Indexed media files, libraries and directory listings.

use vstd::prelude::*;

verus! {

/// A media file found by a library scan.
#[derive(Clone, Debug)]
pub struct IndexedFile {
    pub id: i64,
    pub library_id: i64,
    pub file_path: String,
    pub file_type: String,
    pub title: String,
    pub size: i64,
    pub codec: Option<String>,
    pub resolution: Option<String>,
    pub duration: Option<i64>,
    pub bitrate: Option<i64>,
    pub thumb_path: Option<String>,
    pub metadata_json: Option<String>,
    pub status: String,
    pub created_at: i64,
    pub updated_at: i64,
}

/// A media library: a named directory that is scanned for media.
#[derive(Clone, Debug)]
pub struct Library {
    pub id: i64,
    pub name: String,
    pub path: String,
    pub library_type: String,
    pub created_at: i64,
}

/// One entry of a directory listing.
#[derive(Clone, Debug)]
pub struct FileEntry {
    pub name: String,
    pub path: String,
    pub file_type: String,
    pub size: i64,
    pub is_dir: bool,
    pub modified_at: i64,
    pub thumbnail_url: Option<String>,
}

/// One page of results, with the cursor of the next page when there is one.
#[derive(Clone, Debug)]
pub struct PaginatedResponse<T> {
    pub items: Vec<T>,
    pub next_cursor: Option<String>,
    pub total: i64,
}

} // verus!
