//! Request bodies and queries of the file endpoints, and the rules the
//! endpoints apply to them.

use vstd::prelude::*;
use crate::path::{join, path_join};
use crate::text::{
    chars_eq, chars_of, concat_chars, string_from_chars, trim_start_char, trim_start_matches_char,
};

verus! {

/// Query of a directory listing.
#[derive(Clone, Debug)]
pub struct ListQuery {
    pub path: Option<String>,
}

/// Body of a directory creation.
#[derive(Clone, Debug)]
pub struct MkdirRequest {
    pub path: String,
    pub name: String,
}

/// Body of a move.
#[derive(Clone, Debug)]
pub struct MoveRequest {
    pub from: String,
    pub to: String,
}

/// Body of a deletion.
#[derive(Clone, Debug)]
pub struct DeleteRequest {
    pub path: String,
}

/// Query of a file download.
#[derive(Clone, Debug)]
pub struct DownloadQuery {
    pub path: String,
}

/// Query of a thumbnail.
#[derive(Clone, Debug)]
pub struct ThumbnailQuery {
    pub path: String,
    pub size: Option<u32>,
}

broadcast use vstd::string::group_string_axioms;

/// The directory every file endpoint works under.
pub fn media_root() -> (r: String)
    ensures
        r@ == "/"@,
{
    "/".to_string()
}

/// The directory a listing shows: the one asked for, else the root.
pub fn listing_path(q: &ListQuery) -> (r: String)
    ensures
        q.path matches Some(p) ==> r@ == p@,
        q.path is None ==> r@ == "/"@,
{
    match &q.path {
        Some(p) => p.clone(),
        None => "/".to_string(),
    }
}

/// The edge length of a requested thumbnail: the one asked for, else 256.
pub fn thumbnail_size(q: &ThumbnailQuery) -> (r: u32)
    ensures
        q.size matches Some(n) ==> r == n,
        q.size is None ==> r == 256,
{
    match q.size {
        Some(n) => n,
        None => 256,
    }
}

/// The name an uploaded file is saved under: the name it was sent with,
/// else `unnamed`.
pub fn upload_file_name(sent: Option<&str>) -> (r: String)
    ensures
        sent matches Some(n) ==> r@ == n@,
        sent is None ==> r@ == "unnamed"@,
{
    match sent {
        Some(n) => n.to_string(),
        None => "unnamed".to_string(),
    }
}

/// Where an upload of `file_name` into `dest_path` is written under `root`.
pub open spec fn upload_target_of(root: Seq<char>, dest_path: Seq<char>, file_name: Seq<char>) -> Seq<char> {
    if dest_path == "/"@ {
        path_join(root, file_name)
    } else {
        path_join(path_join(root, trim_start_char(dest_path, '/')), file_name)
    }
}

/// Where an upload of `file_name` into `dest_path` is written.
pub fn upload_target(root: &str, dest_path: &str, file_name: &str) -> (r: String)
    ensures
        r@ == upload_target_of(root@, dest_path@, file_name@),
{
    let rc = chars_of(root);
    let dc = chars_of(dest_path);
    let nc = chars_of(file_name);
    let slash = chars_of("/");
    if chars_eq(&dc, &slash) {
        let j = join(&rc, &nc);
        string_from_chars(&j)
    } else {
        let t = trim_start_matches_char(&dc, '/');
        let d = join(&rc, &t);
        let j = join(&d, &nc);
        string_from_chars(&j)
    }
}

/// The path an upload reply reports: the file name under `/`.
pub fn upload_reply_path(file_name: &str) -> (r: String)
    ensures
        r@ == seq!['/'] + file_name@,
{
    let mut v: Vec<char> = Vec::new();
    v.push('/');
    let n = chars_of(file_name);
    let w = concat_chars(&v, &n);
    string_from_chars(&w)
}

} // verus!
