//! The cache's rows: how books and download links are stored and read back,
//! and which rows have expired.
use vstd::prelude::*;

use crate::models::{BookEntry, CacheTtls, CachedBook, CachedLink};
use crate::scraper::texts;

verus! {

// ---------------------------------------------------------------------------
// Subjects column
// ---------------------------------------------------------------------------
/// What `serde_json::from_str::<Vec<String>>` gives for `json`: the strings
/// of a JSON array of strings, or nothing where `json` is not one.
pub uninterp spec fn json_string_list(json: Seq<char>) -> Option<Seq<Seq<char>>>;

/// What `serde_json::to_string` writes for a list of strings.
pub uninterp spec fn json_of_string_list(v: Seq<Seq<char>>) -> Seq<char>;

/// `serde_json::from_str::<Vec<String>>(json).ok()`: the list, where `json`
/// is a JSON array of strings.
#[verifier::external_body]
fn parse_string_list(json: &str) -> (r: Option<Vec<String>>)
    ensures
        match r {
            Some(v) => json_string_list(json@) == Some(texts(v@)),
            None => json_string_list(json@) is None,
        },
{
    serde_json::from_str::<Vec<String>>(json).ok()
}

/// `serde_json::to_string` of a list of strings. Its documentation says that
/// it fails only where a `Serialize` impl fails or a map has keys that are
/// not strings; neither can happen for a list of strings. What it writes is
/// a JSON array of those strings, which `serde_json::from_str` reads back as
/// the same list.
#[verifier::external_body]
fn string_list_json(v: &Vec<String>) -> (r: String)
    ensures
        r@ == json_of_string_list(texts(v@)),
        json_string_list(r@) == Some(texts(v@)),
{
    serde_json::to_string(v).expect("a list of strings serializes")
}

/// The stored form of a book's subjects: nothing for none, else their JSON
/// array.
pub fn subjects_column(subjects: &Vec<String>) -> (r: Option<String>)
    ensures
        subjects@.len() == 0 ==> r is None,
        subjects@.len() > 0 ==> (r matches Some(j) && j@ == json_of_string_list(texts(subjects@))
            && json_string_list(j@) == Some(texts(subjects@))),
{
    if subjects.len() == 0 {
        None
    } else {
        Some(string_list_json(subjects))
    }
}

/// The subjects read back from their column: the stored list, or none where
/// the column is empty or does not hold a JSON array of strings.
pub open spec fn subjects_from_column(column: Option<Seq<char>>) -> Seq<Seq<char>> {
    match column {
        Some(j) => match json_string_list(j) {
            Some(v) => v,
            None => Seq::empty(),
        },
        None => Seq::empty(),
    }
}

/// A row of the books table.
#[derive(Debug, Clone)]
pub struct BookRow {
    pub md5: String,
    pub title: String,
    pub author: String,
    pub downloads: i64,
    pub cover_url: Option<String>,
    pub media_type: Option<String>,
    pub cover_checked_at: Option<i64>,
    pub cached_at: i64,
    pub first_publish_year: Option<i64>,
    pub language: Option<String>,
    pub subjects_json: Option<String>,
    pub description: Option<String>,
}

/// `c` is the cached book that `row` holds: its columns as they are, and
/// its subjects read back from their column.
pub open spec fn is_cached_book_of(c: CachedBook, row: BookRow) -> bool {
    &&& c.cached_at == row.cached_at
    &&& c.entry.md5 == row.md5
    &&& c.entry.title == row.title
    &&& c.entry.author == row.author
    &&& c.entry.downloads == row.downloads
    &&& c.entry.cover_url == row.cover_url
    &&& c.entry.download_media_type == row.media_type
    &&& c.entry.cover_checked_at == row.cover_checked_at
    &&& c.entry.first_publish_year == row.first_publish_year
    &&& c.entry.language == row.language
    &&& texts(c.entry.subjects@) == subjects_from_column(
        match row.subjects_json {
            Some(j) => Some(j@),
            None => None,
        },
    )
    &&& c.entry.description == row.description
}

/// The cached book a row holds.
pub fn cached_book_from_row(row: BookRow) -> (r: CachedBook)
    ensures
        is_cached_book_of(r, row),
{
    let subjects = match &row.subjects_json {
        Some(json) => match parse_string_list(json.as_str()) {
            Some(v) => v,
            None => Vec::new(),
        },
        None => Vec::new(),
    };
    assert(texts(Seq::<String>::empty()) =~= Seq::<Seq<char>>::empty());
    CachedBook {
        entry: BookEntry {
            md5: row.md5,
            title: row.title,
            author: row.author,
            downloads: row.downloads,
            cover_url: row.cover_url,
            download_media_type: row.media_type,
            cover_checked_at: row.cover_checked_at,
            first_publish_year: row.first_publish_year,
            language: row.language,
            subjects,
            description: row.description,
        },
        cached_at: row.cached_at,
    }
}

/// `row` is the row stored for `b` at time `now`: the book's fields, the
/// time, and the subjects as a JSON array (no value for none).
pub open spec fn is_book_row(row: BookRow, b: BookEntry, now: i64) -> bool {
    &&& row.md5 == b.md5
    &&& row.title == b.title
    &&& row.author == b.author
    &&& row.downloads == b.downloads
    &&& row.cover_url == b.cover_url
    &&& row.media_type == b.download_media_type
    &&& row.cover_checked_at == b.cover_checked_at
    &&& row.cached_at == now
    &&& row.first_publish_year == b.first_publish_year
    &&& row.language == b.language
    &&& (b.subjects@.len() == 0 ==> row.subjects_json is None)
    &&& (b.subjects@.len() > 0 ==> (row.subjects_json matches Some(j) && j@ == json_of_string_list(
        texts(b.subjects@),
    ) && json_string_list(j@) == Some(texts(b.subjects@))))
    &&& row.description == b.description
}

/// The row stored for a book at time `now`.
pub fn book_row(b: &BookEntry, now: i64) -> (r: BookRow)
    ensures
        is_book_row(r, *b, now),
{
    BookRow {
        md5: b.md5.clone(),
        title: b.title.clone(),
        author: b.author.clone(),
        downloads: b.downloads,
        cover_url: b.cover_url.clone(),
        media_type: b.download_media_type.clone(),
        cover_checked_at: b.cover_checked_at,
        cached_at: now,
        first_publish_year: b.first_publish_year,
        language: b.language.clone(),
        subjects_json: subjects_column(&b.subjects),
        description: b.description.clone(),
    }
}

/// A book stored and read back is the same book, written at the time it was
/// stored: every field, its subjects included, comes back as it was.
pub proof fn lemma_book_row_round_trip(b: BookEntry, now: i64, row: BookRow, c: CachedBook)
    requires
        is_book_row(row, b, now),
        is_cached_book_of(c, row),
    ensures
        c.cached_at == now,
        c.entry.md5 == b.md5,
        c.entry.title == b.title,
        c.entry.author == b.author,
        c.entry.downloads == b.downloads,
        c.entry.cover_url == b.cover_url,
        c.entry.download_media_type == b.download_media_type,
        c.entry.cover_checked_at == b.cover_checked_at,
        c.entry.first_publish_year == b.first_publish_year,
        c.entry.language == b.language,
        texts(c.entry.subjects@) == texts(b.subjects@),
        c.entry.description == b.description,
{
    if b.subjects@.len() == 0 {
        assert(texts(b.subjects@) =~= Seq::<Seq<char>>::empty());
    }
}

// ---------------------------------------------------------------------------
// Links
// ---------------------------------------------------------------------------
/// A row of the links table: a failure flag stored as an integer.
#[derive(Debug, Clone)]
pub struct LinkRow {
    pub download_url: Option<String>,
    pub media_type: Option<String>,
    pub failed: i64,
    pub failure_reason: Option<String>,
    pub cached_at: i64,
}

/// The cached link a row holds: failed wherever the flag is not zero.
pub fn cached_link_from_row(row: LinkRow) -> (r: CachedLink)
    ensures
        r.download_url == row.download_url,
        r.media_type == row.media_type,
        r.failed == (row.failed != 0),
        r.failure_reason == row.failure_reason,
        r.cached_at == row.cached_at,
{
    CachedLink {
        download_url: row.download_url,
        media_type: row.media_type,
        failed: row.failed != 0,
        failure_reason: row.failure_reason,
        cached_at: row.cached_at,
    }
}

// ---------------------------------------------------------------------------
// Expiry
// ---------------------------------------------------------------------------
/// The oldest time a row written `ttl_secs` ago may have, at time `now`.
pub fn cache_cutoff(now: i64, ttl_secs: i64) -> (r: i64)
    requires
        i64::MIN <= now - ttl_secs <= i64::MAX,
    ensures
        r == now - ttl_secs,
{
    now - ttl_secs
}

/// The cutoffs below which (inclusive) cached rows are deleted.
#[derive(Debug, Clone, Copy, PartialEq, Eq, Structural)]
pub struct PruneCutoffs {
    pub books: i64,
    pub links: i64,
    pub link_failures: i64,
    pub searches: i64,
    pub explore_sources: i64,
}

/// Each table's cutoff at time `now`: now less that table's time to live.
pub fn prune_cutoffs(now: i64, ttls: &CacheTtls) -> (r: PruneCutoffs)
    requires
        i64::MIN <= now - ttls.books_secs <= i64::MAX,
        i64::MIN <= now - ttls.links_secs <= i64::MAX,
        i64::MIN <= now - ttls.link_failures_secs <= i64::MAX,
        i64::MIN <= now - ttls.searches_secs <= i64::MAX,
        i64::MIN <= now - ttls.explore_secs <= i64::MAX,
    ensures
        r.books == now - ttls.books_secs,
        r.links == now - ttls.links_secs,
        r.link_failures == now - ttls.link_failures_secs,
        r.searches == now - ttls.searches_secs,
        r.explore_sources == now - ttls.explore_secs,
{
    PruneCutoffs {
        books: cache_cutoff(now, ttls.books_secs),
        links: cache_cutoff(now, ttls.links_secs),
        link_failures: cache_cutoff(now, ttls.link_failures_secs),
        searches: cache_cutoff(now, ttls.searches_secs),
        explore_sources: cache_cutoff(now, ttls.explore_secs),
    }
}

} // verus!
