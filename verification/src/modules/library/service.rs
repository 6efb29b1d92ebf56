//! Browsing indexed media: paging through movies, searching, and the
//! answers given when a record is missing.

use vstd::prelude::*;
use crate::error::AppError;
use crate::models::file::{IndexedFile, Library, PaginatedResponse};
use crate::num::{decimal_int, lemma_parse_decimal_int, parse_i64, parse_signed64, push_decimal_i64};
use crate::text::{chars_of, concat_chars, string_from_chars};

verus! {

broadcast use vstd::string::group_string_axioms;

/// The offset a page cursor stands for: the cursor read as an integer, 0
/// when there is none or it does not read as one.
pub open spec fn offset_of(cursor: Option<Seq<char>>) -> int {
    match cursor {
        Some(c) => match parse_signed64(c) {
            Some(n) => n,
            None => 0,
        },
        None => 0,
    }
}

/// The offset of the page that `cursor` asks for.
pub fn cursor_offset(cursor: Option<String>) -> (r: i64)
    ensures
        r as int == offset_of(
            match cursor {
                Some(c) => Some(c@),
                None => None,
            },
        ),
{
    match cursor {
        Some(c) => {
            let cc = chars_of(c.as_str());
            match parse_i64(&cc) {
                Some(n) => n,
                None => 0,
            }
        },
        None => 0,
    }
}

/// How many rows a page query fetches: one more than the page holds, to
/// tell whether another page follows.
pub fn page_limit(page_size: i64) -> (r: i64)
    requires
        page_size < i64::MAX,
    ensures
        r == page_size + 1,
{
    page_size + 1
}

/// Whether the fetched rows overflow the page (the page size is taken as a
/// `usize`, as the row count is compared with it).
pub open spec fn has_more(fetched: nat, page_size: i64) -> bool {
    fetched > (page_size as usize)
}

/// The page built from the rows fetched at `offset` (at most
/// `page_limit(page_size)` of them): the extra row, when there is one, is
/// dropped and the next cursor points past this page.
pub fn paginate<T>(items: Vec<T>, offset: i64, page_size: i64, total: i64) -> (r: PaginatedResponse<T>)
    requires
        has_more(items@.len(), page_size) ==> i64::MIN <= offset + page_size <= i64::MAX,
    ensures
        r.total == total,
        has_more(items@.len(), page_size) ==> r.items@ == items@.drop_last() && (
        r.next_cursor matches Some(c) && c@ == decimal_int(offset + page_size)),
        !has_more(items@.len(), page_size) ==> r.items@ == items@ && r.next_cursor is None,
{
    let more = items.len() > page_size as usize;
    let mut items = items;
    if more {
        let n = items.len() - 1;
        items.truncate(n);
        let mut v: Vec<char> = Vec::new();
        push_decimal_i64(&mut v, offset + page_size);
        assert(v@ =~= decimal_int(offset + page_size));
        PaginatedResponse { items, next_cursor: Some(string_from_chars(&v)), total }
    } else {
        PaginatedResponse { items, next_cursor: None, total }
    }
}

/// Following a page's next cursor resumes right after that page: the
/// cursor stands for the offset of the page plus its size.
pub proof fn lemma_next_cursor_resumes(offset: i64, page_size: i64)
    requires
        i64::MIN <= offset + page_size <= i64::MAX,
    ensures
        offset_of(Some(decimal_int(offset + page_size))) == offset + page_size,
{
    lemma_parse_decimal_int((offset + page_size) as i64);
}

/// A page never holds more rows than the page size when the query fetched
/// at most one more.
pub proof fn lemma_page_bounded(fetched: nat, page_size: i64)
    requires
        0 <= page_size,
        fetched <= page_size + 1,
    ensures
        (if has_more(fetched, page_size) {
            fetched - 1
        } else {
            fetched as int
        }) <= page_size,
{
}

/// The `LIKE` pattern of a title search: the query anywhere in the title.
pub fn like_pattern(q: &str) -> (r: String)
    ensures
        r@ == seq!['%'] + q@ + seq!['%'],
{
    let mut v: Vec<char> = Vec::new();
    v.push('%');
    let qc = chars_of(q);
    let mut w = concat_chars(&v, &qc);
    w.push('%');
    assert(w@ =~= seq!['%'] + q@ + seq!['%']);
    string_from_chars(&w)
}

/// The library looked up, or `library not found`.
pub fn library_found(row: Option<Library>) -> (r: Result<Library, AppError>)
    ensures
        row matches Some(l) ==> r == Ok::<Library, AppError>(l),
        row is None ==> (r matches Err(AppError::NotFound(m)) && m@ == "library not found"@),
{
    match row {
        Some(l) => Ok(l),
        None => Err(AppError::NotFound("library not found".to_string())),
    }
}

/// The media entry looked up, or `media not found`.
pub fn media_found(row: Option<IndexedFile>) -> (r: Result<IndexedFile, AppError>)
    ensures
        row matches Some(f) ==> r == Ok::<IndexedFile, AppError>(f),
        row is None ==> (r matches Err(AppError::NotFound(m)) && m@ == "media not found"@),
{
    match row {
        Some(f) => Ok(f),
        None => Err(AppError::NotFound("media not found".to_string())),
    }
}

/// The outcome of deleting a library: `library not found` when no row was
/// deleted.
pub fn library_deleted(rows_affected: u64) -> (r: Result<(), AppError>)
    ensures
        rows_affected > 0 ==> r is Ok,
        rows_affected == 0 ==> (r matches Err(AppError::NotFound(m)) && m@ == "library not found"@),
{
    if rows_affected == 0 {
        return Err(AppError::NotFound("library not found".to_string()));
    }
    Ok(())
}

} // verus!
