//! Book metadata from Open Library: the lookups made for a book, the cover
//! chosen from a response, and how the findings update the cached book.
use vstd::prelude::*;

use crate::encoding::{url_encode, url_encode_str};
use crate::models::{copy_strings, BookEntry, OlDoc, OlEditionDoc, OlEnrichment};
use crate::opds::feeds::opt_string_view;
use crate::service::search::string_views;
use crate::text::{
    before_first, before_first_exec, dec_int, i64_to_string, owned, push_chars, push_str,
    slice_chars, starts_with, str_chars, string_of, trim, trim_exec, usize_to_string,
};

verus! {

/// The fields asked of each Open Library search.
pub const METADATA_FIELDS: &'static str = "cover_i,cover_edition_key,subject,first_publish_year,language,editions,editions.key,editions.cover_i";

/// How many subjects are taken from a work.
pub const ENRICHMENT_SUBJECTS: usize = 5;

// ---------------------------------------------------------------------------
// Specification
// ---------------------------------------------------------------------------
/// The medium cover of an Open Library cover id.
pub open spec fn id_cover(id: i64) -> Seq<char> {
    "https://covers.openlibrary.org/b/id/"@ + dec_int(id as int) + "-M.jpg"@
}

/// The medium cover of an Open Library edition id.
pub open spec fn olid_cover(olid: Seq<char>) -> Seq<char> {
    "https://covers.openlibrary.org/b/olid/"@ + olid + "-M.jpg"@
}

/// `s` without any number of leading copies of `p` (`trim_start_matches`).
pub open spec fn trim_start_str(s: Seq<char>, p: Seq<char>) -> Seq<char>
    decreases s.len(),
{
    if p.len() > 0 && p.len() <= s.len() && s.take(p.len() as int) == p {
        trim_start_str(s.skip(p.len() as int), p)
    } else {
        s
    }
}

/// An edition's cover: by its cover id, else by its key.
pub open spec fn edition_cover(e: OlEditionDoc) -> Option<Seq<char>> {
    match e.cover_i {
        Some(i) => Some(id_cover(i)),
        None => match e.key {
            Some(k) => Some(olid_cover(trim_start_str(k@, "/books/"@))),
            None => None,
        },
    }
}

/// The cover of the first edition that has one.
pub open spec fn first_edition_cover(eds: Seq<OlEditionDoc>) -> Option<Seq<char>>
    decreases eds.len(),
{
    if eds.len() == 0 {
        None
    } else {
        match edition_cover(eds[0]) {
            Some(u) => Some(u),
            None => first_edition_cover(eds.drop_first()),
        }
    }
}

/// A work's cover: by its cover id, else by its cover edition, else that of
/// its first edition with one.
pub open spec fn doc_cover(doc: OlDoc) -> Option<Seq<char>> {
    match doc.cover_i {
        Some(i) => Some(id_cover(i)),
        None => match doc.cover_edition_key {
            Some(k) => Some(olid_cover(k@)),
            None => match doc.editions {
                Some(e) => first_edition_cover(e.docs@),
                None => None,
            },
        },
    }
}

/// The cover of the first work that has one.
pub open spec fn first_doc_cover(docs: Seq<OlDoc>) -> Option<Seq<char>>
    decreases docs.len(),
{
    if docs.len() == 0 {
        None
    } else {
        match doc_cover(docs[0]) {
            Some(u) => Some(u),
            None => first_doc_cover(docs.drop_first()),
        }
    }
}

/// A work's first language.
pub open spec fn first_language(doc: OlDoc) -> Option<Seq<char>> {
    match doc.language {
        Some(l) => if l@.len() > 0 {
            Some(l@[0]@)
        } else {
            None
        },
        None => None,
    }
}

/// A work's first five subjects.
pub open spec fn first_subjects(doc: OlDoc) -> Seq<Seq<char>> {
    match doc.subject {
        Some(s) => if s@.len() <= ENRICHMENT_SUBJECTS {
            string_views(s@)
        } else {
            string_views(s@).take(ENRICHMENT_SUBJECTS as int)
        },
        None => Seq::empty(),
    }
}

/// The book's first author: the text before the first `;`, trimmed.
pub open spec fn first_author(author: Seq<char>) -> Seq<char> {
    trim(before_first(author, ';'))
}

/// The Open Library search URL for a title, an optional author and a limit.
pub open spec fn metadata_search_url(
    base: Seq<char>,
    title: Seq<char>,
    author: Option<Seq<char>>,
    limit: nat,
) -> Seq<char> {
    base + "/search.json?title="@ + url_encode(title) + (match author {
        Some(a) => "&author="@ + url_encode(a),
        None => Seq::empty(),
    }) + "&limit="@ + dec_int(limit as int) + "&fields="@ + METADATA_FIELDS@
}

// ---------------------------------------------------------------------------
// Covers
// ---------------------------------------------------------------------------
fn id_cover_url(id: i64) -> (r: String)
    ensures
        r@ == id_cover(id),
{
    let mut r = owned("https://covers.openlibrary.org/b/id/");
    let n = i64_to_string(id);
    push_str(&mut r, n.as_str());
    push_str(&mut r, "-M.jpg");
    r
}

fn olid_cover_url(olid: &Vec<char>) -> (r: String)
    ensures
        r@ == olid_cover(olid@),
{
    let mut r = owned("https://covers.openlibrary.org/b/olid/");
    push_chars(&mut r, olid);
    push_str(&mut r, "-M.jpg");
    r
}

fn trim_start_str_exec(s: &Vec<char>, p: &Vec<char>) -> (r: Vec<char>)
    ensures
        r@ == trim_start_str(s@, p@),
{
    let mut cur = slice_chars(s, 0, s.len());
    assert(cur@ =~= s@);
    if p.len() == 0 {
        return cur;
    }
    while starts_with(&cur, p)
        invariant
            p.len() > 0,
            trim_start_str(s@, p@) == trim_start_str(cur@, p@),
        decreases cur.len(),
    {
        cur = slice_chars(&cur, p.len(), cur.len());
    }
    cur
}

fn edition_cover_url(e: &OlEditionDoc) -> (r: Option<String>)
    ensures
        opt_string_view(r) == edition_cover(*e),
{
    match e.cover_i {
        Some(i) => Some(id_cover_url(i)),
        None => match &e.key {
            Some(k) => {
                let key = str_chars(k.as_str());
                let olid = trim_start_str_exec(&key, &str_chars("/books/"));
                Some(olid_cover_url(&olid))
            },
            None => None,
        },
    }
}

/// The cover URL for one Open Library work: its cover id, else its cover
/// edition, else the first of its editions with a cover id or a key.
pub fn cover_url_for_doc(doc: &OlDoc) -> (r: Option<String>)
    ensures
        opt_string_view(r) == doc_cover(*doc),
{
    match doc.cover_i {
        Some(i) => return Some(id_cover_url(i)),
        None => {},
    }
    match &doc.cover_edition_key {
        Some(k) => return Some(olid_cover_url(&str_chars(k.as_str()))),
        None => {},
    }
    match &doc.editions {
        Some(editions) => {
            let eds = &editions.docs;
            let mut i: usize = 0;
            assert(eds@.skip(0) =~= eds@);
            while i < eds.len()
                invariant
                    i <= eds.len(),
                    doc_cover(*doc) == first_edition_cover(eds@),
                    first_edition_cover(eds@) == first_edition_cover(eds@.skip(i as int)),
                decreases eds.len() - i,
            {
                proof {
                    assert(eds@.skip(i as int).drop_first() =~= eds@.skip(i + 1));
                    assert(eds@.skip(i as int)[0] == eds@[i as int]);
                }
                match edition_cover_url(&eds[i]) {
                    Some(u) => return Some(u),
                    None => {},
                }
                i = i + 1;
            }
            None
        },
        None => None,
    }
}

/// The cover URL of the first work in `docs` that has one.
pub fn select_cover_url(docs: &Vec<OlDoc>) -> (r: Option<String>)
    ensures
        opt_string_view(r) == first_doc_cover(docs@),
{
    let mut i: usize = 0;
    assert(docs@.skip(0) =~= docs@);
    while i < docs.len()
        invariant
            i <= docs.len(),
            first_doc_cover(docs@) == first_doc_cover(docs@.skip(i as int)),
        decreases docs.len() - i,
    {
        proof {
            assert(docs@.skip(i as int).drop_first() =~= docs@.skip(i + 1));
            assert(docs@.skip(i as int)[0] == docs@[i as int]);
        }
        match cover_url_for_doc(&docs[i]) {
            Some(u) => return Some(u),
            None => {},
        }
        i = i + 1;
    }
    None
}

// ---------------------------------------------------------------------------
// Enrichment
// ---------------------------------------------------------------------------
/// What a search response tells of a book, where it lists any work: the
/// first cover among its works, and the first work's year, first language
/// and first five subjects.
pub fn enrichment_from_docs(docs: &Vec<OlDoc>) -> (r: Option<OlEnrichment>)
    ensures
        r is None <==> docs@.len() == 0,
        r matches Some(e) ==> is_enrichment_of(e, docs@),
{
    if docs.len() == 0 {
        return None;
    }
    let doc = &docs[0];
    let cover_url = select_cover_url(docs);
    let language = match &doc.language {
        Some(langs) => if langs.len() > 0 {
            Some(langs[0].clone())
        } else {
            None
        },
        None => None,
    };
    let mut subjects: Vec<String> = Vec::new();
    match &doc.subject {
        Some(s) => {
            let mut i: usize = 0;
            while i < s.len() && i < ENRICHMENT_SUBJECTS
                invariant
                    i <= s.len(),
                    i <= ENRICHMENT_SUBJECTS,
                    subjects@ == s@.take(i as int),
                decreases s.len() - i,
            {
                subjects.push(s[i].clone());
                i = i + 1;
                assert(subjects@ =~= s@.take(i as int));
            }
            assert(string_views(subjects@) =~= string_views(s@).take(i as int));
            assert(s@.len() <= ENRICHMENT_SUBJECTS ==> string_views(s@).take(i as int)
                =~= string_views(s@));
        },
        None => {
            assert(string_views(subjects@) =~= Seq::<Seq<char>>::empty());
        },
    }
    Some(OlEnrichment { cover_url, first_publish_year: doc.first_publish_year, language, subjects })
}

/// `e` is what a non-empty search response `docs` gives: the chosen cover,
/// and the first work's year, first language and first subjects.
pub open spec fn is_enrichment_of(e: OlEnrichment, docs: Seq<OlDoc>) -> bool {
    &&& opt_string_view(e.cover_url) == first_doc_cover(docs)
    &&& e.first_publish_year == docs[0].first_publish_year
    &&& opt_string_view(e.language) == first_language(docs[0])
    &&& string_views(e.subjects@) == first_subjects(docs[0])
}

/// `e` holds nothing found.
pub open spec fn is_empty_enrichment(e: OlEnrichment) -> bool {
    &&& e.cover_url is None
    &&& e.first_publish_year is None
    &&& e.language is None
    &&& e.subjects@.len() == 0
}

/// What follows the answer to one metadata query.
#[derive(Debug)]
pub enum MetadataNext {
    /// Ask the query at this index next.
    Query(usize),
    /// The lookup is over, with what it found.
    Done(OlEnrichment),
}

/// The lookup over the fallback queries: after the answer to the query at
/// `index` of `count` (`None` where the request failed), a response with
/// works ends the lookup with what they give; an empty or failed one moves
/// on to the next query, and after the last one the lookup ends with
/// nothing found.
pub fn metadata_next(count: usize, index: usize, answer: &Option<Vec<OlDoc>>) -> (r: MetadataNext)
    requires
        index < count,
    ensures
        match answer {
            Some(docs) if docs@.len() > 0 => r matches MetadataNext::Done(e) && is_enrichment_of(
                e,
                docs@,
            ),
            _ => if index + 1 < count {
                r == MetadataNext::Query((index + 1) as usize)
            } else {
                r matches MetadataNext::Done(e) && is_empty_enrichment(e)
            },
        },
{
    match answer {
        Some(docs) => match enrichment_from_docs(docs) {
            Some(e) => return MetadataNext::Done(e),
            None => {},
        },
        None => {},
    }
    if index + 1 < count {
        MetadataNext::Query(index + 1)
    } else {
        MetadataNext::Done(OlEnrichment::default())
    }
}

/// The cached book updated with what was found: the cover is replaced (and
/// its check time set when one was found); the year, language and subjects
/// are filled in only where the book has none.
pub fn apply_enrichment(book: BookEntry, enrichment: &OlEnrichment, now: i64) -> (r: BookEntry)
    ensures
        opt_string_view(r.cover_url) == opt_string_view(enrichment.cover_url),
        r.cover_checked_at == if enrichment.cover_url is Some {
            Some(now)
        } else {
            book.cover_checked_at
        },
        r.first_publish_year == if book.first_publish_year is None {
            enrichment.first_publish_year
        } else {
            book.first_publish_year
        },
        opt_string_view(r.language) == if book.language is None {
            opt_string_view(enrichment.language)
        } else {
            opt_string_view(book.language)
        },
        r.subjects@ == if book.subjects@.len() == 0 {
            enrichment.subjects@
        } else {
            book.subjects@
        },
        r.md5 == book.md5,
        r.title == book.title,
        r.author == book.author,
        r.downloads == book.downloads,
        r.download_media_type == book.download_media_type,
        r.description == book.description,
{
    let mut updated = book;
    updated.cover_url = enrichment.cover_url.clone();
    if enrichment.cover_url.is_some() {
        updated.cover_checked_at = Some(now);
    }
    if updated.first_publish_year.is_none() {
        updated.first_publish_year = enrichment.first_publish_year;
    }
    if updated.language.is_none() {
        updated.language = enrichment.language.clone();
    }
    if updated.subjects.len() == 0 {
        updated.subjects = copy_strings(&enrichment.subjects);
    }
    updated
}

// ---------------------------------------------------------------------------
// Lookups
// ---------------------------------------------------------------------------
/// One metadata search to try: the author it names (empty for none) and its
/// URL.
#[derive(Debug, Clone)]
pub struct MetadataQuery {
    pub author_label: String,
    pub url: String,
}

fn search_url(base: &str, title: &str, author: Option<&str>, limit: usize) -> (r: String)
    ensures
        r@ == metadata_search_url(
            base@,
            title@,
            match author {
                Some(a) => Some(a@),
                None => None,
            },
            limit as nat,
        ),
{
    let mut r = owned(base);
    push_str(&mut r, "/search.json?title=");
    let t = url_encode_str(title);
    push_str(&mut r, t.as_str());
    match author {
        Some(a) => {
            push_str(&mut r, "&author=");
            let e = url_encode_str(a);
            push_str(&mut r, e.as_str());
        },
        None => {},
    }
    push_str(&mut r, "&limit=");
    let l = usize_to_string(limit);
    push_str(&mut r, l.as_str());
    push_str(&mut r, "&fields=");
    push_str(&mut r, METADATA_FIELDS);
    r
}

/// The searches tried in turn for a book: by title and full author, by
/// title and first author, then by title alone; each asks for at least one
/// result.
pub fn metadata_queries(metadata_base_url: &str, book: &BookEntry, cover_lookup_limit: usize) -> (r:
    Vec<MetadataQuery>)
    ensures
        r@.len() == 3,
        ({
            let limit = if cover_lookup_limit < 1 {
                1nat
            } else {
                cover_lookup_limit as nat
            };
            let first = first_author(book.author@);
            &&& r@[0].author_label@ == book.author@
            &&& r@[0].url@ == metadata_search_url(
                metadata_base_url@,
                book.title@,
                Some(book.author@),
                limit,
            )
            &&& r@[1].author_label@ == first
            &&& r@[1].url@ == metadata_search_url(
                metadata_base_url@,
                book.title@,
                Some(first),
                limit,
            )
            &&& r@[2].author_label@ == Seq::<char>::empty()
            &&& r@[2].url@ == metadata_search_url(metadata_base_url@, book.title@, None, limit)
        }),
{
    let limit: usize = if cover_lookup_limit < 1 {
        1
    } else {
        cover_lookup_limit
    };
    let author_chars = str_chars(book.author.as_str());
    let first = string_of(&trim_exec(&before_first_exec(&author_chars, ';')));
    let mut r: Vec<MetadataQuery> = Vec::new();
    r.push(
        MetadataQuery {
            author_label: book.author.clone(),
            url: search_url(
                metadata_base_url,
                book.title.as_str(),
                Some(book.author.as_str()),
                limit,
            ),
        },
    );
    r.push(
        MetadataQuery {
            author_label: first.clone(),
            url: search_url(metadata_base_url, book.title.as_str(), Some(first.as_str()), limit),
        },
    );
    r.push(
        MetadataQuery {
            author_label: String::new(),
            url: search_url(metadata_base_url, book.title.as_str(), None, limit),
        },
    );
    r
}

} // verus!
