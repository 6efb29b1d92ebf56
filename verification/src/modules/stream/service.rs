//! Byte-range requests over media files.

use vstd::prelude::*;
use crate::error::AppError;
use crate::num::{decimal, parse_u64, parse_unsigned, push_decimal};
use crate::path::{join, path_join};
use crate::text::{chars_of, has_prefix, split_chars, split_on, starts_with, string_from_chars, sub_chars, views};

verus! {

broadcast use vstd::string::group_string_axioms;

/// A media file ready to be served: where it is, its type and its size.
#[derive(Clone, Debug)]
pub struct FileRange {
    pub path: String,
    pub content_type: String,
    pub size: u64,
}

/// Name for the media type `mime_guess` gives a path: the first type known
/// for its extension, else `application/octet-stream`.
pub uninterp spec fn mime_for_path(path: Seq<char>) -> Seq<char>;

/// Media type of `path`, guessed from its extension.
///
/// Trusted: calls `mime_guess::from_path(path).first_or_octet_stream()`,
/// which reads only the extension against static tables; the contract
/// claims only that the result is the fixed function `mime_for_path` of the
/// path text.
#[verifier::external_body]
pub(crate) fn guess_content_type(path: &str) -> (r: String)
    ensures
        r@ == mime_for_path(path@),
{
    mime_guess::from_path(path).first_or_octet_stream().to_string()
}

/// The media type a file is served with.
pub fn content_type_of(path: &str) -> (r: String)
    ensures
        r@ == mime_for_path(path@),
{
    guess_content_type(path)
}

/// The served file of an indexed media entry: its path joined onto the
/// library's directory, with the type guessed from that path and the size
/// the file system reported.
pub fn file_range(library_path: &str, file_path: &str, size: u64) -> (r: FileRange)
    ensures
        r.path@ == path_join(library_path@, file_path@),
        r.content_type@ == mime_for_path(path_join(library_path@, file_path@)),
        r.size == size,
{
    let l = chars_of(library_path);
    let f = chars_of(file_path);
    let j = join(&l, &f);
    let path = string_from_chars(&j);
    let content_type = guess_content_type(path.as_str());
    FileRange { path, content_type, size }
}

/// The byte range a `Range` header asks of a file of `size` bytes:
/// `bytes=START-END` or `bytes=START-` (to the last byte), both inclusive,
/// with the range inside the file. Anything else asks for no range.
pub open spec fn range_of(header: Seq<char>, size: nat) -> Option<(nat, nat)> {
    if !has_prefix(header, "bytes="@) {
        None
    } else {
        let parts = split_on(header.subrange(6, header.len() as int), '-');
        if parts.len() != 2 {
            None
        } else {
            match parse_unsigned(parts[0], u64::MAX as nat) {
                None => None,
                Some(start) => {
                    let end: Option<int> = if parts[1].len() == 0 {
                        Some(size - 1)
                    } else {
                        match parse_unsigned(parts[1], u64::MAX as nat) {
                            Some(e) => Some(e as int),
                            None => None,
                        }
                    };
                    match end {
                        None => None,
                        Some(e) => if start > e || e >= size {
                            None
                        } else {
                            Some((start, e as nat))
                        },
                    }
                },
            }
        }
    }
}

/// Whether the header asks for everything from a byte on (`bytes=START-`),
/// which names the last byte of the file.
pub open spec fn asks_to_end(header: Seq<char>) -> bool {
    &&& has_prefix(header, "bytes="@)
    &&& split_on(header.subrange(6, header.len() as int), '-').len() == 2
    &&& parse_unsigned(
        split_on(header.subrange(6, header.len() as int), '-')[0],
        u64::MAX as nat,
    ) is Some
    &&& split_on(header.subrange(6, header.len() as int), '-')[1].len() == 0
}

/// Whether `range_header` asks for everything from a byte on.
pub fn asks_to_end_of_file(range_header: &str) -> (r: bool)
    ensures
        r == asks_to_end(range_header@),
{
    let h = chars_of(range_header);
    let prefix = chars_of("bytes=");
    if !starts_with(&h, &prefix) {
        return false;
    }
    assert(prefix@.len() == 6) by {
        reveal_strlit("bytes=");
    }
    let rest = sub_chars(&h, 6, h.len());
    let parts = split_chars(&rest, '-');
    if parts.len() != 2 {
        return false;
    }
    assert(views(parts@)[0] == parts@[0]@ && views(parts@)[1] == parts@[1]@);
    parse_u64(&parts[0]).is_some() && parts[1].len() == 0
}

/// The inclusive byte range `range_header` asks of a file of `file_size`
/// bytes (see `range_of`). An empty file has no last byte, so it cannot be
/// asked for everything from a byte on.
pub fn parse_range(range_header: &str, file_size: u64) -> (r: Option<(u64, u64)>)
    requires
        file_size > 0 || !asks_to_end(range_header@),
    ensures
        r matches Some((s, e)) ==> range_of(range_header@, file_size as nat) == Some(
            (s as nat, e as nat),
        ),
        r is None ==> range_of(range_header@, file_size as nat) is None,
{
    let h = chars_of(range_header);
    let prefix = chars_of("bytes=");
    if !starts_with(&h, &prefix) {
        return None;
    }
    assert(prefix@.len() == 6) by {
        reveal_strlit("bytes=");
    }
    let rest = sub_chars(&h, 6, h.len());
    let parts = split_chars(&rest, '-');
    if parts.len() != 2 {
        return None;
    }
    assert(views(parts@)[0] == parts@[0]@ && views(parts@)[1] == parts@[1]@);
    let start = match parse_u64(&parts[0]) {
        Some(s) => s,
        None => return None,
    };
    let end: u64 = if parts[1].len() == 0 {
        file_size - 1
    } else {
        match parse_u64(&parts[1]) {
            Some(e) => e,
            None => return None,
        }
    };
    if start > end || end >= file_size {
        return None;
    }
    Some((start, end))
}

/// How a media request is answered.
#[derive(Clone, Debug)]
pub struct RangeReply {
    /// 206 for a range, 200 for the whole file.
    pub status: u16,
    /// First byte sent.
    pub start: u64,
    /// Number of bytes sent (the `Content-Length`).
    pub length: u64,
    /// The `Content-Range` header, sent with a range.
    pub content_range: Option<String>,
}

/// The `Content-Range` value of bytes `start..=end` of a file of `size`.
pub open spec fn content_range_text(start: nat, end: nat, size: nat) -> Seq<char> {
    "bytes "@ + decimal(start) + seq!['-'] + decimal(end) + seq!['/'] + decimal(size)
}

/// How a request for a file of `file_size` bytes with the optional `Range`
/// header is answered: a satisfiable range gives 206 with that slice and
/// its `Content-Range`; otherwise the whole file with 200.
pub fn plan_reply(file_size: u64, range_header: Option<&str>) -> (r: RangeReply)
    requires
        range_header matches Some(h) ==> (file_size > 0 || !asks_to_end(h@)),
    ensures
        match range_header {
            Some(h) => match range_of(h@, file_size as nat) {
                Some((s, e)) => r.status == 206 && r.start == s && r.length == e - s + 1 && (
                r.content_range matches Some(c) && c@ == content_range_text(
                    s,
                    e,
                    file_size as nat,
                )),
                None => r.status == 200 && r.start == 0 && r.length == file_size
                    && r.content_range is None,
            },
            None => r.status == 200 && r.start == 0 && r.length == file_size
                && r.content_range is None,
        },
{
    if let Some(h) = range_header {
        if let Some((start, end)) = parse_range(h, file_size) {
            let length = end - start + 1;
            let mut v = chars_of("bytes ");
            push_decimal(&mut v, start);
            v.push('-');
            push_decimal(&mut v, end);
            v.push('/');
            push_decimal(&mut v, file_size);
            assert(v@ =~= content_range_text(start as nat, end as nat, file_size as nat));
            return RangeReply {
                status: 206,
                start,
                length,
                content_range: Some(string_from_chars(&v)),
            };
        }
    }
    RangeReply { status: 200, start: 0, length: file_size, content_range: None }
}

/// A transcoding back end: turns a media file into another format.
pub trait TranscodeService {
    /// The transcoded file of `input` in `format`.
    fn transcode(&self, input: &str, format: &str) -> Result<String, AppError>;
}

/// The transcoder used when none is configured: it refuses every request.
pub struct NoopTranscode;

impl TranscodeService for NoopTranscode {
    fn transcode(&self, input: &str, format: &str) -> (r: Result<String, AppError>)
        ensures
            r matches Err(AppError::Internal(m)) && m@ == "transcoding not supported in v1"@,
    {
        Err(AppError::Internal("transcoding not supported in v1".to_string()))
    }
}

} // verus!
