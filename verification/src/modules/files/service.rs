//! File browsing rules: where a requested path leads, what a listing shows
//! and in which order, and where thumbnails and deleted files go.

use vstd::prelude::*;
use crate::digest::{hex_lower, lemma_hex_plain, md5_digest, md5_hex};
use crate::error::AppError;
use crate::models::file::FileEntry;
use crate::num::{decimal, decimal_int, push_decimal, push_decimal_i64};
use crate::path::{extension, extension_of, file_name, file_name_of, join, lemma_file_name_plain, lemma_join_child, path_eq, path_join, path_starts_with, same_path, starts_with_path};
use crate::num::{is_digit, lemma_decimal_value};
use crate::sort::{key_less, key_lt, key_of, same_key_order, sorted_by_key, stable_sort, SortKey};
use crate::text::{
    chars_eq, chars_of, concat_chars, contains_char, lex_lt, lowercase, string_from_chars, to_lowercase,
    trim_start_char, trim_start_matches_char,
};
use vstd::string::StringSliceAdditionalSpecFns;

verus! {

broadcast use vstd::string::group_string_axioms;

/// What the file system reports about one directory entry.
#[derive(Clone, Debug)]
pub struct DirEntryInfo {
    pub name: String,
    pub is_dir: bool,
    pub len: u64,
    pub modified_at: i64,
}

impl DirEntryInfo {
    /// An identical copy of this entry.
    pub fn copy(&self) -> (r: Self)
        ensures
            r == *self,
    {
        DirEntryInfo {
            name: self.name.clone(),
            is_dir: self.is_dir,
            len: self.len,
            modified_at: self.modified_at,
        }
    }
}

// ---------------------------------------------------------------------------
// Classification

/// Extensions of video files.
pub open spec fn is_video_ext(e: Seq<char>) -> bool {
    e == "mp4"@ || e == "mkv"@ || e == "avi"@ || e == "mov"@ || e == "m2ts"@ || e == "ts"@ || e
        == "wmv"@ || e == "flv"@
}

/// Extensions of image files.
pub open spec fn is_image_ext(e: Seq<char>) -> bool {
    e == "jpg"@ || e == "jpeg"@ || e == "png"@ || e == "gif"@ || e == "webp"@ || e == "heic"@
        || e == "bmp"@
}

/// Extensions of audio files.
pub open spec fn is_audio_ext(e: Seq<char>) -> bool {
    e == "mp3"@ || e == "flac"@ || e == "aac"@ || e == "wav"@ || e == "ogg"@
}

/// Extensions of archives.
pub open spec fn is_archive_ext(e: Seq<char>) -> bool {
    e == "zip"@ || e == "rar"@ || e == "7z"@ || e == "tar"@ || e == "gz"@ || e == "bz2"@
}

/// Extensions of documents.
pub open spec fn is_document_ext(e: Seq<char>) -> bool {
    e == "pdf"@ || e == "doc"@ || e == "docx"@ || e == "xls"@ || e == "xlsx"@ || e == "ppt"@ || e
        == "pptx"@ || e == "txt"@ || e == "md"@
}

/// The media kind named by a lowercase extension.
pub open spec fn kind_of_ext(e: Seq<char>) -> Seq<char> {
    if is_video_ext(e) {
        "video"@
    } else if is_image_ext(e) {
        "image"@
    } else if is_audio_ext(e) {
        "audio"@
    } else if is_archive_ext(e) {
        "archive"@
    } else if is_document_ext(e) {
        "document"@
    } else {
        "other"@
    }
}

/// The media kinds of extensions: mp4, mkv, avi, mov, m2ts, ts, wmv and flv
/// are video; jpg, jpeg, png, gif, webp, heic and bmp are images; mp3, flac,
/// aac, wav and ogg are audio; zip, rar, 7z, tar, gz and bz2 are archives;
/// pdf, doc, docx, xls, xlsx, ppt, pptx, txt and md are documents; every
/// other extension is `other`.
pub proof fn lemma_extension_kinds(e: Seq<char>)
    ensures
        (e == "mp4"@ || e == "mkv"@ || e == "avi"@ || e == "mov"@ || e == "m2ts"@ || e == "ts"@
            || e == "wmv"@ || e == "flv"@) ==> kind_of_ext(e) == "video"@,
        (e == "jpg"@ || e == "jpeg"@ || e == "png"@ || e == "gif"@ || e == "webp"@ || e
            == "heic"@ || e == "bmp"@) ==> kind_of_ext(e) == "image"@,
        (e == "mp3"@ || e == "flac"@ || e == "aac"@ || e == "wav"@ || e == "ogg"@) ==> kind_of_ext(
            e,
        ) == "audio"@,
        (e == "zip"@ || e == "rar"@ || e == "7z"@ || e == "tar"@ || e == "gz"@ || e == "bz2"@)
            ==> kind_of_ext(e) == "archive"@,
        (e == "pdf"@ || e == "doc"@ || e == "docx"@ || e == "xls"@ || e == "xlsx"@ || e == "ppt"@
            || e == "pptx"@ || e == "txt"@ || e == "md"@) ==> kind_of_ext(e) == "document"@,
        !(e == "mp4"@ || e == "mkv"@ || e == "avi"@ || e == "mov"@ || e == "m2ts"@ || e == "ts"@
            || e == "wmv"@ || e == "flv"@ || e == "jpg"@ || e == "jpeg"@ || e == "png"@ || e
            == "gif"@ || e == "webp"@ || e == "heic"@ || e == "bmp"@ || e == "mp3"@ || e
            == "flac"@ || e == "aac"@ || e == "wav"@ || e == "ogg"@ || e == "zip"@ || e == "rar"@
            || e == "7z"@ || e == "tar"@ || e == "gz"@ || e == "bz2"@ || e == "pdf"@ || e
            == "doc"@ || e == "docx"@ || e == "xls"@ || e == "xlsx"@ || e == "ppt"@ || e
            == "pptx"@ || e == "txt"@ || e == "md"@) ==> kind_of_ext(e) == "other"@,
{
    reveal_strlit("mp4");
    assert("mp4"@.len() == 3 && "mp4"@[0] == 'm' && "mp4"@[1] == 'p' && "mp4"@[2] == '4');
    reveal_strlit("mkv");
    assert("mkv"@.len() == 3 && "mkv"@[0] == 'm' && "mkv"@[1] == 'k' && "mkv"@[2] == 'v');
    reveal_strlit("avi");
    assert("avi"@.len() == 3 && "avi"@[0] == 'a' && "avi"@[1] == 'v' && "avi"@[2] == 'i');
    reveal_strlit("mov");
    assert("mov"@.len() == 3 && "mov"@[0] == 'm' && "mov"@[1] == 'o' && "mov"@[2] == 'v');
    reveal_strlit("m2ts");
    assert("m2ts"@.len() == 4 && "m2ts"@[0] == 'm' && "m2ts"@[1] == '2' && "m2ts"@[2] == 't' && "m2ts"@[3] == 's');
    reveal_strlit("ts");
    assert("ts"@.len() == 2 && "ts"@[0] == 't' && "ts"@[1] == 's');
    reveal_strlit("wmv");
    assert("wmv"@.len() == 3 && "wmv"@[0] == 'w' && "wmv"@[1] == 'm' && "wmv"@[2] == 'v');
    reveal_strlit("flv");
    assert("flv"@.len() == 3 && "flv"@[0] == 'f' && "flv"@[1] == 'l' && "flv"@[2] == 'v');
    reveal_strlit("jpg");
    assert("jpg"@.len() == 3 && "jpg"@[0] == 'j' && "jpg"@[1] == 'p' && "jpg"@[2] == 'g');
    reveal_strlit("jpeg");
    assert("jpeg"@.len() == 4 && "jpeg"@[0] == 'j' && "jpeg"@[1] == 'p' && "jpeg"@[2] == 'e' && "jpeg"@[3] == 'g');
    reveal_strlit("png");
    assert("png"@.len() == 3 && "png"@[0] == 'p' && "png"@[1] == 'n' && "png"@[2] == 'g');
    reveal_strlit("gif");
    assert("gif"@.len() == 3 && "gif"@[0] == 'g' && "gif"@[1] == 'i' && "gif"@[2] == 'f');
    reveal_strlit("webp");
    assert("webp"@.len() == 4 && "webp"@[0] == 'w' && "webp"@[1] == 'e' && "webp"@[2] == 'b' && "webp"@[3] == 'p');
    reveal_strlit("heic");
    assert("heic"@.len() == 4 && "heic"@[0] == 'h' && "heic"@[1] == 'e' && "heic"@[2] == 'i' && "heic"@[3] == 'c');
    reveal_strlit("bmp");
    assert("bmp"@.len() == 3 && "bmp"@[0] == 'b' && "bmp"@[1] == 'm' && "bmp"@[2] == 'p');
    reveal_strlit("mp3");
    assert("mp3"@.len() == 3 && "mp3"@[0] == 'm' && "mp3"@[1] == 'p' && "mp3"@[2] == '3');
    reveal_strlit("flac");
    assert("flac"@.len() == 4 && "flac"@[0] == 'f' && "flac"@[1] == 'l' && "flac"@[2] == 'a' && "flac"@[3] == 'c');
    reveal_strlit("aac");
    assert("aac"@.len() == 3 && "aac"@[0] == 'a' && "aac"@[1] == 'a' && "aac"@[2] == 'c');
    reveal_strlit("wav");
    assert("wav"@.len() == 3 && "wav"@[0] == 'w' && "wav"@[1] == 'a' && "wav"@[2] == 'v');
    reveal_strlit("ogg");
    assert("ogg"@.len() == 3 && "ogg"@[0] == 'o' && "ogg"@[1] == 'g' && "ogg"@[2] == 'g');
    reveal_strlit("zip");
    assert("zip"@.len() == 3 && "zip"@[0] == 'z' && "zip"@[1] == 'i' && "zip"@[2] == 'p');
    reveal_strlit("rar");
    assert("rar"@.len() == 3 && "rar"@[0] == 'r' && "rar"@[1] == 'a' && "rar"@[2] == 'r');
    reveal_strlit("7z");
    assert("7z"@.len() == 2 && "7z"@[0] == '7' && "7z"@[1] == 'z');
    reveal_strlit("tar");
    assert("tar"@.len() == 3 && "tar"@[0] == 't' && "tar"@[1] == 'a' && "tar"@[2] == 'r');
    reveal_strlit("gz");
    assert("gz"@.len() == 2 && "gz"@[0] == 'g' && "gz"@[1] == 'z');
    reveal_strlit("bz2");
    assert("bz2"@.len() == 3 && "bz2"@[0] == 'b' && "bz2"@[1] == 'z' && "bz2"@[2] == '2');
    reveal_strlit("pdf");
    assert("pdf"@.len() == 3 && "pdf"@[0] == 'p' && "pdf"@[1] == 'd' && "pdf"@[2] == 'f');
    reveal_strlit("doc");
    assert("doc"@.len() == 3 && "doc"@[0] == 'd' && "doc"@[1] == 'o' && "doc"@[2] == 'c');
    reveal_strlit("docx");
    assert("docx"@.len() == 4 && "docx"@[0] == 'd' && "docx"@[1] == 'o' && "docx"@[2] == 'c' && "docx"@[3] == 'x');
    reveal_strlit("xls");
    assert("xls"@.len() == 3 && "xls"@[0] == 'x' && "xls"@[1] == 'l' && "xls"@[2] == 's');
    reveal_strlit("xlsx");
    assert("xlsx"@.len() == 4 && "xlsx"@[0] == 'x' && "xlsx"@[1] == 'l' && "xlsx"@[2] == 's' && "xlsx"@[3] == 'x');
    reveal_strlit("ppt");
    assert("ppt"@.len() == 3 && "ppt"@[0] == 'p' && "ppt"@[1] == 'p' && "ppt"@[2] == 't');
    reveal_strlit("pptx");
    assert("pptx"@.len() == 4 && "pptx"@[0] == 'p' && "pptx"@[1] == 'p' && "pptx"@[2] == 't' && "pptx"@[3] == 'x');
    reveal_strlit("txt");
    assert("txt"@.len() == 3 && "txt"@[0] == 't' && "txt"@[1] == 'x' && "txt"@[2] == 't');
    reveal_strlit("md");
    assert("md"@.len() == 2 && "md"@[0] == 'm' && "md"@[1] == 'd');
}

/// The lowercase extension of a path, empty when it has none.
pub open spec fn lower_ext(p: Seq<char>) -> Seq<char> {
    lowercase(
        match extension(p) {
            Some(e) => e,
            None => Seq::<char>::empty(),
        },
    )
}

/// The kind shown for a listing entry: directories are `other`.
pub open spec fn file_kind(name: Seq<char>, is_dir: bool) -> Seq<char> {
    if is_dir {
        "other"@
    } else {
        kind_of_ext(lower_ext(name))
    }
}

fn is_lit(v: &[char], lit: &str) -> (r: bool)
    ensures
        r == (v@ == lit@),
{
    let l = chars_of(lit);
    chars_eq(v, &l)
}

/// The media kind named by the lowercase extension `e`.
pub fn kind_for_extension(e: &[char]) -> (r: String)
    ensures
        r@ == kind_of_ext(e@),
{
    if is_lit(e, "mp4") || is_lit(e, "mkv") || is_lit(e, "avi") || is_lit(e, "mov") || is_lit(
        e,
        "m2ts",
    ) || is_lit(e, "ts") || is_lit(e, "wmv") || is_lit(e, "flv") {
        return "video".to_string();
    }
    if is_lit(e, "jpg") || is_lit(e, "jpeg") || is_lit(e, "png") || is_lit(e, "gif") || is_lit(
        e,
        "webp",
    ) || is_lit(e, "heic") || is_lit(e, "bmp") {
        return "image".to_string();
    }
    if is_lit(e, "mp3") || is_lit(e, "flac") || is_lit(e, "aac") || is_lit(e, "wav") || is_lit(
        e,
        "ogg",
    ) {
        return "audio".to_string();
    }
    if is_lit(e, "zip") || is_lit(e, "rar") || is_lit(e, "7z") || is_lit(e, "tar") || is_lit(
        e,
        "gz",
    ) || is_lit(e, "bz2") {
        return "archive".to_string();
    }
    if is_lit(e, "pdf") || is_lit(e, "doc") || is_lit(e, "docx") || is_lit(e, "xls") || is_lit(
        e,
        "xlsx",
    ) || is_lit(e, "ppt") || is_lit(e, "pptx") || is_lit(e, "txt") || is_lit(e, "md") {
        return "document".to_string();
    }
    "other".to_string()
}

/// The lowercase extension of `p`, empty when it has none.
pub fn lowercase_extension(p: &str) -> (r: Vec<char>)
    ensures
        r@ == lower_ext(p@),
{
    let pc = chars_of(p);
    let e: Vec<char> = match extension_of(&pc) {
        Some(e) => e,
        None => Vec::new(),
    };
    let es = string_from_chars(&e);
    let lower = to_lowercase(es.as_str());
    chars_of(lower.as_str())
}

/// The kind of a listing entry named `name`.
pub fn classify_file(name: &str, is_dir: bool) -> (r: String)
    ensures
        r@ == file_kind(name@, is_dir),
{
    if is_dir {
        return "other".to_string();
    }
    let e = lowercase_extension(name);
    kind_for_extension(&e)
}

// ---------------------------------------------------------------------------
// Paths

/// `name` placed in the listed directory `base`.
pub open spec fn compound(base: Seq<char>, name: Seq<char>) -> Seq<char> {
    if base.len() == 0 || base == "/"@ {
        seq!['/'] + name
    } else {
        base + seq!['/'] + name
    }
}

/// The path of `name` inside the listed directory `base`.
pub fn compound_path(base: &str, name: &str) -> (r: String)
    ensures
        r@ == compound(base@, name@),
{
    let b = chars_of(base);
    let n = chars_of(name);
    if b.len() == 0 || is_lit(&b, "/") {
        let mut v: Vec<char> = Vec::new();
        v.push('/');
        let r = concat_chars(&v, &n);
        assert(r@ =~= seq!['/'] + name@);
        string_from_chars(&r)
    } else {
        let mut v = b;
        v.push('/');
        let r = concat_chars(&v, &n);
        assert(r@ =~= base@ + seq!['/'] + name@);
        string_from_chars(&r)
    }
}

/// Text placed in a thumbnail link's query; it is passed on unchanged.
pub fn urlencoding(s: &str) -> (r: String)
    ensures
        r@ == s@,
{
    s.to_string()
}

/// The path a request names under `root`: `root` joined with the request
/// path stripped of its leading slashes.
pub open spec fn target_of(root: Seq<char>, relative_path: Seq<char>) -> Seq<char> {
    path_join(root, trim_start_char(relative_path, '/'))
}

/// The path a request names under `root` (before any check).
pub fn resolved_target(root: &str, relative_path: &str) -> (r: String)
    ensures
        r@ == target_of(root@, relative_path@),
{
    let rc = chars_of(root);
    let pc = chars_of(relative_path);
    let t = trim_start_matches_char(&pc, '/');
    let j = join(&rc, &t);
    string_from_chars(&j)
}

/// Whether the target is allowed: once canonicalized it stays under the
/// canonical root, or it is the root itself. `canonical_root` and
/// `canonical_target` are what canonicalizing `root` and the target gave;
/// where that failed the path is used as it is.
pub open spec fn target_allowed(
    root: Seq<char>,
    relative_path: Seq<char>,
    canonical_root: Option<Seq<char>>,
    canonical_target: Option<Seq<char>>,
) -> bool {
    let target = target_of(root, relative_path);
    let croot = match canonical_root {
        Some(c) => c,
        None => root,
    };
    let ctarget = match canonical_target {
        Some(c) => c,
        None => target,
    };
    path_starts_with(ctarget, croot) || path_eq(target, root)
}

/// The path a request names under `root`, refused when it leaves the root.
pub fn resolve_path(
    root: &str,
    relative_path: &str,
    canonical_root: Option<&str>,
    canonical_target: Option<&str>,
) -> (r: Result<String, AppError>)
    ensures
        target_allowed(
            root@,
            relative_path@,
            match canonical_root {
                Some(c) => Some(c@),
                None => None,
            },
            match canonical_target {
                Some(c) => Some(c@),
                None => None,
            },
        ) ==> (r matches Ok(p) && p@ == target_of(root@, relative_path@)),
        !target_allowed(
            root@,
            relative_path@,
            match canonical_root {
                Some(c) => Some(c@),
                None => None,
            },
            match canonical_target {
                Some(c) => Some(c@),
                None => None,
            },
        ) ==> (r matches Err(AppError::BadRequest(m)) && m@ == "path traversal denied"@),
{
    let target = resolved_target(root, relative_path);
    let rc = chars_of(root);
    let tc = chars_of(target.as_str());
    let croot = match canonical_root {
        Some(c) => chars_of(c),
        None => chars_of(root),
    };
    let ctarget = match canonical_target {
        Some(c) => chars_of(c),
        None => chars_of(target.as_str()),
    };
    if !starts_with_path(&ctarget, &croot) && !same_path(&tc, &rc) {
        return Err(AppError::BadRequest("path traversal denied".to_string()));
    }
    Ok(target)
}

/// A resolved download target, refused when it is not a regular file.
pub fn download_path(
    root: &str,
    relative_path: &str,
    canonical_root: Option<&str>,
    canonical_target: Option<&str>,
    is_file: bool,
) -> (r: Result<String, AppError>)
    ensures
        target_allowed(
            root@,
            relative_path@,
            match canonical_root {
                Some(c) => Some(c@),
                None => None,
            },
            match canonical_target {
                Some(c) => Some(c@),
                None => None,
            },
        ) ==> (if is_file {
            r matches Ok(p) && p@ == target_of(root@, relative_path@)
        } else {
            r matches Err(AppError::NotFound(m)) && m@ == "not a file"@
        }),
        !target_allowed(
            root@,
            relative_path@,
            match canonical_root {
                Some(c) => Some(c@),
                None => None,
            },
            match canonical_target {
                Some(c) => Some(c@),
                None => None,
            },
        ) ==> (r matches Err(AppError::BadRequest(m)) && m@ == "path traversal denied"@),
{
    let path = resolve_path(root, relative_path, canonical_root, canonical_target)?;
    if !is_file {
        return Err(AppError::NotFound("not a file".to_string()));
    }
    Ok(path)
}

/// A resolved listing target, refused when it is not a directory.
pub fn require_directory(path: String, is_dir: bool) -> (r: Result<String, AppError>)
    ensures
        is_dir ==> r == Ok::<String, AppError>(path),
        !is_dir ==> (r matches Err(AppError::NotFound(m)) && m@ == "not a directory"@),
{
    if !is_dir {
        return Err(AppError::NotFound("not a directory".to_string()));
    }
    Ok(path)
}

/// The directory a new directory `name` is created at: `name` inside the
/// resolved parent.
pub fn mkdir_target(parent: &str, name: &str) -> (r: String)
    ensures
        r@ == path_join(parent@, name@),
{
    let p = chars_of(parent);
    let n = chars_of(name);
    let j = join(&p, &n);
    string_from_chars(&j)
}

/// The directory deleted files are moved to.
pub fn trash_dir(root: &str) -> (r: String)
    ensures
        r@ == path_join(root@, ".trash"@),
{
    let rc = chars_of(root);
    let t = chars_of(".trash");
    let j = join(&rc, &t);
    string_from_chars(&j)
}

/// Where a deleted file goes: the trash directory, under its name prefixed
/// with the deletion time in milliseconds and `_`.
pub open spec fn trash_name(deleted: Seq<char>, now_ms: i64) -> Seq<char> {
    decimal_int(now_ms as int) + seq!['_'] + match file_name(deleted) {
        Some(n) => n,
        None => Seq::<char>::empty(),
    }
}

/// Where the resolved path `deleted` is moved by a deletion at `now_ms`.
pub fn trash_target(root: &str, deleted: &str, now_ms: i64) -> (r: String)
    ensures
        r@ == path_join(path_join(root@, ".trash"@), trash_name(deleted@, now_ms)),
{
    let trash = trash_dir(root);
    let dc = chars_of(deleted);
    let mut v: Vec<char> = Vec::new();
    push_decimal_i64(&mut v, now_ms);
    v.push('_');
    let name: Vec<char> = match file_name_of(&dc) {
        Some(n) => n,
        None => Vec::new(),
    };
    let full = concat_chars(&v, &name);
    assert(full@ =~= trash_name(deleted@, now_ms));
    let tc = chars_of(trash.as_str());
    let j = join(&tc, &full);
    string_from_chars(&j)
}

/// Deleting never moves a file out of the trash: the trash directory lies
/// inside the root, and every deleted file lands directly inside the trash
/// directory.
pub proof fn lemma_deleted_files_stay_in_trash(root: Seq<char>, deleted: Seq<char>, now_ms: i64)
    ensures
        path_starts_with(path_join(root, ".trash"@), root),
        path_starts_with(
            path_join(path_join(root, ".trash"@), trash_name(deleted, now_ms)),
            path_join(root, ".trash"@),
        ),
{
    reveal_strlit(".trash");
    assert(".trash"@.len() == 6);
    assert(".trash"@ != seq!['.']) by {
        assert(seq!['.'].len() == 1);
    }
    assert(!".trash"@.contains('/')) by {
        if ".trash"@.contains('/') {
            let i = choose|i: int| 0 <= i < ".trash"@.len() && ".trash"@[i] == '/';
            assert(0 <= i < 6);
        }
    }
    lemma_join_child(root, ".trash"@);
    let t = trash_name(deleted, now_ms);
    let d = decimal_int(now_ms as int);
    let n = match file_name(deleted) {
        Some(x) => x,
        None => Seq::<char>::empty(),
    };
    lemma_file_name_plain(deleted);
    assert(!n.contains('/'));
    assert(!d.contains('/')) by {
        let m: nat = if now_ms < 0 {
            (-now_ms) as nat
        } else {
            now_ms as nat
        };
        lemma_decimal_value(m);
        if d.contains('/') {
            let i = choose|i: int| 0 <= i < d.len() && d[i] == '/';
            if now_ms < 0 {
                if i > 0 {
                    assert(d[i] == decimal(m)[i - 1]);
                    assert(is_digit(decimal(m)[i - 1]));
                }
            } else {
                assert(is_digit(decimal(m)[i]));
            }
        }
    }
    assert(t =~= d + seq!['_'] + n);
    assert(!t.contains('/')) by {
        if t.contains('/') {
            let i = choose|i: int| 0 <= i < t.len() && t[i] == '/';
            if i < d.len() {
                assert(d[i] == '/');
            } else if i > d.len() {
                assert(n[i - d.len() - 1] == '/');
            }
        }
    }
    assert(t.len() >= 2) by {
        lemma_decimal_value(if now_ms < 0 { (-now_ms) as nat } else { now_ms as nat });
    }
    assert(t != seq!['.']);
    lemma_join_child(path_join(root, ".trash"@), t);
}

/// File name of a generated image thumbnail: the MD5 of the request path in
/// hexadecimal, `_`, the size, and `.jpg`.
pub open spec fn thumbnail_file_name(relative_path: Seq<char>, bytes: Seq<u8>, size: u32) -> Seq<
    char,
> {
    hex_lower(md5_digest(bytes)) + seq!['_'] + decimal(size as nat) + ".jpg"@
}

/// Generated thumbnails are kept directly inside the thumbnail directory,
/// whatever the request path.
pub proof fn lemma_thumbnails_stay_in_dir(
    thumb_dir: Seq<char>,
    relative_path: Seq<char>,
    bytes: Seq<u8>,
    size: u32,
)
    ensures
        path_starts_with(
            path_join(thumb_dir, thumbnail_file_name(relative_path, bytes, size)),
            thumb_dir,
        ),
{
    let h = hex_lower(md5_digest(bytes));
    let d = decimal(size as nat);
    let n = thumbnail_file_name(relative_path, bytes, size);
    reveal_strlit(".jpg");
    lemma_hex_plain(md5_digest(bytes));
    lemma_decimal_value(size as nat);
    assert(n =~= h + seq!['_'] + d + ".jpg"@);
    assert(!n.contains('/')) by {
        if n.contains('/') {
            let i = choose|i: int| 0 <= i < n.len() && n[i] == '/';
            if i < h.len() {
                assert(h[i] == '/');
            } else if i == h.len() {
            } else if i < h.len() + 1 + d.len() {
                assert(is_digit(d[i - h.len() - 1]));
            } else {
                assert(".jpg"@[i - h.len() - 1 - d.len()] == '/');
            }
        }
    }
    assert(n != seq!['.']) by {
        assert(n.len() >= 5);
    }
    lemma_join_child(thumb_dir, n);
}

/// Where the thumbnail of `relative_path` at `size` pixels is kept.
pub fn thumbnail_path(thumb_dir: &str, relative_path: &str, size: u32) -> (r: String)
    ensures
        r@ == path_join(
            thumb_dir@,
            thumbnail_file_name(relative_path@, relative_path.spec_bytes(), size),
        ),
{
    let mut v = md5_hex(relative_path);
    v.push('_');
    push_decimal(&mut v, size as u64);
    let ext = chars_of(".jpg");
    let name = concat_chars(&v, &ext);
    let d = chars_of(thumb_dir);
    let j = join(&d, &name);
    string_from_chars(&j)
}

/// A thumbnail request names a pre-generated media thumbnail when its path
/// holds no separator.
pub fn is_bare_file_name(path: &str) -> (r: bool)
    ensures
        r == (!path@.contains('/') && !path@.contains('\\')),
{
    let p = chars_of(path);
    !contains_char(&p, '/') && !contains_char(&p, '\\')
}

// ---------------------------------------------------------------------------
// Listings

/// Hidden entries: names starting with a dot.
pub open spec fn is_hidden(name: Seq<char>) -> bool {
    name.len() > 0 && name[0] == '.'
}

/// Whether `name` is hidden.
pub fn hidden(name: &str) -> (r: bool)
    ensures
        r == is_hidden(name@),
{
    let n = chars_of(name);
    n.len() > 0 && n[0] == '.'
}

/// The entries a listing shows, in the order the file system gave them.
pub open spec fn visible(entries: Seq<DirEntryInfo>) -> Seq<DirEntryInfo> {
    entries.filter(|e: DirEntryInfo| !is_hidden(e.name@))
}

impl SortKey for DirEntryInfo {
    /// Directories first, then by lowercase name.
    open spec fn sort_key(&self) -> (u8, Seq<char>) {
        (if self.is_dir {
            0u8
        } else {
            1u8
        }, lowercase(self.name@))
    }

    fn key_below(&self, other: &Self) -> (r: bool) {
        let ra: u8 = if self.is_dir {
            0
        } else {
            1
        };
        let rb: u8 = if other.is_dir {
            0
        } else {
            1
        };
        let la = to_lowercase(self.name.as_str());
        let lb = to_lowercase(other.name.as_str());
        let ca = chars_of(la.as_str());
        let cb = chars_of(lb.as_str());
        key_less(ra, &ca, rb, &cb)
    }
}

/// Entries ordered for a listing: no file comes before a directory, and
/// within directories, and within files, no entry comes before one whose
/// lowercase name is lexicographically smaller.
pub proof fn lemma_listing_order(s: Seq<DirEntryInfo>)
    requires
        sorted_by_key(s),
    ensures
        forall|i: int, j: int|
            #![trigger s[i], s[j]]
            0 <= i < j < s.len() ==> (s[j].is_dir ==> s[i].is_dir) && (s[i].is_dir == s[j].is_dir
                ==> !lex_lt(lowercase(s[j].name@), lowercase(s[i].name@))),
{
    assert forall|i: int, j: int| #![trigger s[i], s[j]] 0 <= i < j < s.len() implies (s[j].is_dir ==> s[i].is_dir) && (
    s[i].is_dir == s[j].is_dir ==> !lex_lt(lowercase(s[j].name@), lowercase(s[i].name@))) by {
        assert(!key_lt(key_of(s[j]), key_of(s[i])));
    }
}

/// The link to an image entry's thumbnail.
pub open spec fn thumbnail_link(base: Seq<char>, name: Seq<char>) -> Seq<char> {
    "/api/files/thumbnail?path="@ + compound(base, name) + "&size=256"@
}

/// `e` is the listing entry shown for `raw` in the directory `base`.
pub open spec fn entry_for(base: Seq<char>, raw: DirEntryInfo, e: FileEntry) -> bool {
    &&& e.name@ == raw.name@
    &&& e.path@ == compound(base, raw.name@)
    &&& e.file_type@ == file_kind(raw.name@, raw.is_dir)
    &&& e.size == (if raw.is_dir {
        0
    } else {
        raw.len as i64
    })
    &&& e.is_dir == raw.is_dir
    &&& e.modified_at == raw.modified_at
    &&& match e.thumbnail_url {
        Some(u) => file_kind(raw.name@, raw.is_dir) == "image"@ && u@ == thumbnail_link(
            base,
            raw.name@,
        ),
        None => file_kind(raw.name@, raw.is_dir) != "image"@,
    }
}

/// The listing entry shown for `raw` in the directory `base`.
pub fn make_entry(base: &str, raw: &DirEntryInfo) -> (e: FileEntry)
    ensures
        entry_for(base@, *raw, e),
{
    let path = compound_path(base, raw.name.as_str());
    let file_type = classify_file(raw.name.as_str(), raw.is_dir);
    let size: i64 = if raw.is_dir {
        0
    } else {
        raw.len as i64
    };
    let ft = chars_of(file_type.as_str());
    let thumbnail_url = if is_lit(&ft, "image") {
        let link_path = compound_path(base, raw.name.as_str());
        let enc = urlencoding(link_path.as_str());
        let a = chars_of("/api/files/thumbnail?path=");
        let b = chars_of(enc.as_str());
        let c = chars_of("&size=256");
        let ab = concat_chars(&a, &b);
        let abc = concat_chars(&ab, &c);
        Some(string_from_chars(&abc))
    } else {
        None
    };
    FileEntry {
        name: raw.name.clone(),
        path,
        file_type,
        size,
        is_dir: raw.is_dir,
        modified_at: raw.modified_at,
        thumbnail_url,
    }
}

/// The visible entries of `entries`, in their order.
pub fn visible_entries(entries: Vec<DirEntryInfo>) -> (r: Vec<DirEntryInfo>)
    ensures
        r@ == visible(entries@),
{
    let mut out: Vec<DirEntryInfo> = Vec::new();
    let mut i: usize = 0;
    proof { reveal(Seq::filter); }
    assert(entries@.take(0) =~= Seq::<DirEntryInfo>::empty());
    while i < entries.len()
        invariant
            i <= entries@.len(),
            out@ == visible(entries@.take(i as int)),
        decreases entries@.len() - i,
    {
        proof { reveal(Seq::filter); }
        assert(entries@.take(i + 1).drop_last() =~= entries@.take(i as int));
        let e = &entries[i];
        if !hidden(e.name.as_str()) {
            out.push(e.copy());
        }
        i = i + 1;
    }
    assert(entries@.take(entries@.len() as int) =~= entries@);
    out
}

/// The listing of the directory `relative_path`, from what the file system
/// reported of its entries: hidden entries left out, directories first,
/// then by lowercase name, entries with equal keys in the order reported.
pub fn list_files(relative_path: &str, entries: Vec<DirEntryInfo>) -> (r: Vec<FileEntry>)
    ensures
        exists|s: Seq<DirEntryInfo>|
            {
                &&& sorted_by_key(s)
                &&& same_key_order(s, visible(entries@))
                &&& r@.len() == s.len()
                &&& forall|i: int| 0 <= i < s.len() ==> entry_for(relative_path@, s[i], r@[i])
            },
        forall|i: int, j: int|
            #![trigger r@[i], r@[j]]
            0 <= i < j < r@.len() ==> (r@[j].is_dir ==> r@[i].is_dir) && (r@[i].is_dir
                == r@[j].is_dir ==> !lex_lt(lowercase(r@[j].name@), lowercase(r@[i].name@))),
{
    let shown = visible_entries(entries);
    let sorted = stable_sort(shown);
    let mut out: Vec<FileEntry> = Vec::new();
    let mut i: usize = 0;
    while i < sorted.len()
        invariant
            i <= sorted@.len(),
            out@.len() == i,
            forall|j: int| 0 <= j < i ==> entry_for(relative_path@, sorted@[j], out@[j]),
        decreases sorted@.len() - i,
    {
        let e = make_entry(relative_path, &sorted[i]);
        out.push(e);
        i = i + 1;
    }
    assert(sorted_by_key(sorted@) && same_key_order(sorted@, visible(entries@)));
    proof {
        lemma_listing_order(sorted@);
        assert forall|i: int, j: int| #![trigger out@[i], out@[j]] 0 <= i < j < out@.len() implies (out@[j].is_dir
            ==> out@[i].is_dir) && (out@[i].is_dir == out@[j].is_dir ==> !lex_lt(
            lowercase(out@[j].name@),
            lowercase(out@[i].name@),
        )) by {
            assert(entry_for(relative_path@, sorted@[i], out@[i]));
            assert(entry_for(relative_path@, sorted@[j], out@[j]));
        }
    }
    out
}

} // verus!
