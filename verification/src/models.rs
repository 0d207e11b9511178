//! The catalog's data: books, explore entries, cache rows and the Open
//! Library responses the catalog reads.
use vstd::prelude::*;

verus! {

/// A book found in the archive.
#[derive(Debug, Clone)]
pub struct BookEntry {
    pub md5: String,
    pub title: String,
    pub author: String,
    pub downloads: i64,
    pub cover_url: Option<String>,
    pub download_media_type: Option<String>,
    pub cover_checked_at: Option<i64>,
    pub first_publish_year: Option<i64>,
    pub language: Option<String>,
    pub subjects: Vec<String>,
    pub description: Option<String>,
}

/// A book listed in an explore feed.
#[derive(Debug, Clone)]
pub struct ExploreEntry {
    pub id: String,
    pub title: String,
    pub author: String,
    pub summary: String,
    pub cover_url: Option<String>,
    pub search_query: String,
    pub alternate_url: String,
    pub popularity: i64,
    pub first_publish_year: Option<i64>,
    pub subjects: Vec<String>,
}

/// The archive's inline download statistics for a book.
#[derive(Debug)]
pub struct InlineInfo {
    pub downloads_total: Option<i64>,
}

/// A book read back from the cache.
#[derive(Debug, Clone)]
pub struct CachedBook {
    pub entry: BookEntry,
    pub cached_at: i64,
}

/// A download link resolution read back from the cache.
#[derive(Debug, Clone)]
pub struct CachedLink {
    pub download_url: Option<String>,
    pub media_type: Option<String>,
    pub failed: bool,
    pub failure_reason: Option<String>,
    pub cached_at: i64,
}

/// How long each kind of cache row stays fresh, in seconds.
#[derive(Debug, Clone)]
pub struct CacheTtls {
    pub books_secs: i64,
    pub links_secs: i64,
    pub link_failures_secs: i64,
    pub searches_secs: i64,
    pub explore_secs: i64,
}

/// The stored form of a list of explore entries.
#[derive(Debug)]
pub struct CachedExploreEntries {
    pub entries: Vec<ExploreEntry>,
}

/// Number of rows in each cache table.
#[derive(Debug, Clone)]
pub struct CacheCounts {
    pub books: i64,
    pub links: i64,
    pub searches: i64,
    pub explore_sources: i64,
}

/// An Open Library search response.
#[derive(Debug)]
pub struct OlResponse {
    pub docs: Vec<OlDoc>,
}

/// One work of an Open Library search response.
#[derive(Debug)]
pub struct OlDoc {
    pub cover_i: Option<i64>,
    pub cover_edition_key: Option<String>,
    pub subject: Option<Vec<String>>,
    pub first_publish_year: Option<i64>,
    pub language: Option<Vec<String>>,
    pub editions: Option<OlEditions>,
}

/// The editions listed under a work.
#[derive(Debug)]
pub struct OlEditions {
    pub docs: Vec<OlEditionDoc>,
}

/// One edition of a work.
#[derive(Debug)]
pub struct OlEditionDoc {
    pub key: Option<String>,
    pub cover_i: Option<i64>,
}

/// An Open Library subject listing.
#[derive(Debug)]
pub struct OlSubjectResponse {
    pub works: Vec<OlSubjectWork>,
}

/// One work of a subject listing.
#[derive(Debug)]
pub struct OlSubjectWork {
    pub key: String,
    pub title: String,
    pub authors: Vec<OlAuthorRef>,
    pub cover_id: Option<i64>,
    pub edition_count: Option<i64>,
    pub subject: Option<Vec<String>>,
    pub first_publish_year: Option<i64>,
}

/// An author named by a subject listing.
#[derive(Debug)]
pub struct OlAuthorRef {
    pub name: String,
}

/// Metadata found for a book.
#[derive(Debug, Clone)]
pub struct OlEnrichment {
    pub cover_url: Option<String>,
    pub first_publish_year: Option<i64>,
    pub language: Option<String>,
    pub subjects: Vec<String>,
}

impl Default for OlEnrichment {
    fn default() -> (r: Self)
        ensures
            r.cover_url is None,
            r.first_publish_year is None,
            r.language is None,
            r.subjects@.len() == 0,
    {
        OlEnrichment { cover_url: None, first_publish_year: None, language: None, subjects: Vec::new() }
    }
}

/// A copy of a list of strings.
pub fn copy_strings(v: &Vec<String>) -> (r: Vec<String>)
    ensures
        r@ == v@,
{
    let mut r: Vec<String> = Vec::new();
    let mut i: usize = 0;
    while i < v.len()
        invariant
            i <= v.len(),
            r@ == v@.take(i as int),
        decreases v.len() - i,
    {
        r.push(v[i].clone());
        i = i + 1;
        assert(r@ =~= v@.take(i as int));
    }
    assert(v@.take(v.len() as int) =~= v@);
    r
}

/// A copy of an optional string.
pub fn copy_opt_string(v: &Option<String>) -> (r: Option<String>)
    ensures
        r == *v,
{
    match v {
        Some(s) => Some(s.clone()),
        None => None,
    }
}

impl BookEntry {
    /// `other` holds the same values as `self`.
    pub open spec fn same(self, other: BookEntry) -> bool {
        &&& self.md5 == other.md5
        &&& self.title == other.title
        &&& self.author == other.author
        &&& self.downloads == other.downloads
        &&& self.cover_url == other.cover_url
        &&& self.download_media_type == other.download_media_type
        &&& self.cover_checked_at == other.cover_checked_at
        &&& self.first_publish_year == other.first_publish_year
        &&& self.language == other.language
        &&& self.subjects@ == other.subjects@
        &&& self.description == other.description
    }

    /// A copy of this entry.
    pub fn copy(&self) -> (r: Self)
        ensures
            r.same(*self),
    {
        let r = BookEntry {
            md5: self.md5.clone(),
            title: self.title.clone(),
            author: self.author.clone(),
            downloads: self.downloads,
            cover_url: copy_opt_string(&self.cover_url),
            download_media_type: copy_opt_string(&self.download_media_type),
            cover_checked_at: self.cover_checked_at,
            first_publish_year: self.first_publish_year,
            language: copy_opt_string(&self.language),
            subjects: copy_strings(&self.subjects),
            description: copy_opt_string(&self.description),
        };
        r
    }
}

impl ExploreEntry {
    /// `other` holds the same values as `self`.
    pub open spec fn same(self, other: ExploreEntry) -> bool {
        &&& self.id == other.id
        &&& self.title == other.title
        &&& self.author == other.author
        &&& self.summary == other.summary
        &&& self.cover_url == other.cover_url
        &&& self.search_query == other.search_query
        &&& self.alternate_url == other.alternate_url
        &&& self.popularity == other.popularity
        &&& self.first_publish_year == other.first_publish_year
        &&& self.subjects@ == other.subjects@
    }

    /// A copy of this entry.
    pub fn copy(&self) -> (r: Self)
        ensures
            r.same(*self),
    {
        ExploreEntry {
            id: self.id.clone(),
            title: self.title.clone(),
            author: self.author.clone(),
            summary: self.summary.clone(),
            cover_url: copy_opt_string(&self.cover_url),
            search_query: self.search_query.clone(),
            alternate_url: self.alternate_url.clone(),
            popularity: self.popularity,
            first_publish_year: self.first_publish_year,
            subjects: copy_strings(&self.subjects),
        }
    }
}

} // verus!
