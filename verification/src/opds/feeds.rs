//! Catalog feeds: navigation, acquisition (search) and explore feeds, and
//! the OpenSearch description.
//!
//! Each feed is built by a function that takes the `updated` timestamp and
//! whose contract gives the exact document; the functions without that
//! argument read the clock once and call it.
use vstd::prelude::*;

use quick_xml::Writer;
use std::io::Cursor;

use crate::clock::{now_rfc3339, spec_rfc3339};
use crate::encoding::{url_encode, url_encode_str};
use crate::models::{BookEntry, ExploreEntry};
use crate::opds::links::{
    absolute_url, extract_cover_id, search_page_path, spec_absolute_url, spec_extract_cover_id,
    spec_search_page_path,
};
use crate::opds::xml::{
    attr_views, decl_text, elem_text, empty_elem_with_attrs, empty_text, end_elem, end_feed,
    end_feed_text, end_text, feed_author, feed_author_text, finish, generator, generator_text, link,
    link_text, start_elem, start_feed, start_feed_text, start_text, text_elem, text_elem_text,
    text_elem_with_attrs, writer, written, xml_decl, DEFAULT_ACQ_TYPE, OPDS_CT_ACQ, OPDS_CT_NAV,
    OPENSEARCH_CT, OPENSEARCH_NS,
};
use crate::state::ExploreSubject;
use crate::text::{
    concat2, concat3, dec_int, dec_nat, i64_to_string, owned, push_chars, push_str,
    usize_to_string, u64_to_dec,
};

verus! {

/// The links of one page of a paginated feed.
#[derive(Debug)]
pub struct PaginationPaths {
    pub self_href: String,
    pub next_href: Option<String>,
    pub previous_href: Option<String>,
    pub page: usize,
    pub page_size: usize,
    pub total_items: usize,
}

// ---------------------------------------------------------------------------
// Specifications
// ---------------------------------------------------------------------------
/// The view of an optional string.
pub open spec fn opt_view(o: Option<&str>) -> Option<Seq<char>> {
    match o {
        Some(s) => Some(s@),
        None => None,
    }
}

/// The view of an optional owned string.
pub open spec fn opt_string_view(o: Option<String>) -> Option<Seq<char>> {
    match o {
        Some(s) => Some(s@),
        None => None,
    }
}

/// A path made absolute against the public base URL.
pub open spec fn abs(base: Option<Seq<char>>, path: Seq<char>) -> Seq<char> {
    spec_absolute_url(base, path)
}

/// The attributes of a plain-text `summary`.
pub open spec fn text_type_attrs() -> Seq<(Seq<char>, Seq<char>)> {
    seq![("type"@, "text"@)]
}

/// A navigation entry.
pub open spec fn nav_entry_text(
    title: Seq<char>,
    id: Seq<char>,
    summary: Seq<char>,
    href: Seq<char>,
    updated: Seq<char>,
) -> Seq<char> {
    start_text("entry"@, Seq::empty()) + text_elem_text("title"@, title) + text_elem_text("id"@, id)
        + text_elem_text("updated"@, updated) + elem_text("summary"@, text_type_attrs(), summary)
        + link_text("subsection"@, href, OPDS_CT_NAV@) + end_text("entry"@)
}

/// The navigation entries of the configured subjects.
pub open spec fn subject_entries_text(
    base: Option<Seq<char>>,
    subjects: Seq<ExploreSubject>,
    app: Seq<char>,
    updated: Seq<char>,
) -> Seq<char>
    decreases subjects.len(),
{
    if subjects.len() == 0 {
        Seq::empty()
    } else {
        let s = subjects.last();
        subject_entries_text(base, subjects.drop_last(), app, updated) + nav_entry_text(
            s.name@,
            "urn:"@ + app + ":explore:subject:"@ + s.slug@,
            "Browse popular books for "@ + s.name@ + "."@,
            abs(base, "/opds/explore/subject/"@ + s.slug@),
            updated,
        )
    }
}

/// A navigation feed: the popular top list and one entry per subject.
pub open spec fn navigation_feed_text(
    base: Option<Seq<char>>,
    self_href: Seq<char>,
    subjects: Seq<ExploreSubject>,
    app: Seq<char>,
    title: Seq<char>,
    subtitle: Option<Seq<char>>,
    updated: Seq<char>,
) -> Seq<char> {
    start_feed_text("urn:"@ + app + ":explore"@) + text_elem_text("title"@, title) + match subtitle {
        Some(s) => text_elem_text("subtitle"@, s),
        None => Seq::empty(),
    } + text_elem_text("updated"@, updated) + feed_author_text(app) + generator_text(app) + link_text(
        "self"@,
        abs(base, self_href),
        OPDS_CT_NAV@,
    ) + link_text("search"@, abs(base, "/opds/opensearch.xml"@), OPENSEARCH_CT@) + link_text(
        "start"@,
        abs(base, "/opds"@),
        OPDS_CT_NAV@,
    ) + link_text("up"@, abs(base, "/opds"@), OPDS_CT_NAV@) + nav_entry_text(
        "Popular Top 250"@,
        "urn:"@ + app + ":explore:top"@,
        "Browse a popularity-weighted list."@,
        abs(base, "/opds/explore/top"@),
        updated,
    ) + subject_entries_text(base, subjects, app, updated) + end_feed_text()
}

/// The `category` elements of a list of subjects.
pub open spec fn categories_text(subjects: Seq<Seq<char>>) -> Seq<char>
    decreases subjects.len(),
{
    if subjects.len() == 0 {
        Seq::empty()
    } else {
        categories_text(subjects.drop_last()) + empty_text(
            "category"@,
            seq![("term"@, subjects.last()), ("label"@, subjects.last())],
        )
    }
}

/// The views of a list of strings.
pub open spec fn strings_view(v: Seq<String>) -> Seq<Seq<char>> {
    v.map_values(|s: String| s@)
}

/// An image link.
pub open spec fn image_link_text(rel: Seq<char>, href: Seq<char>) -> Seq<char> {
    empty_text("link"@, seq![("rel"@, rel), ("href"@, href), ("type"@, "image/jpeg"@)])
}

/// The start of a book's entry: title, id, timestamp, author and summary.
pub open spec fn book_head_text(b: BookEntry, updated: Seq<char>) -> Seq<char> {
    start_text("entry"@, Seq::empty()) + text_elem_text("title"@, b.title@) + text_elem_text(
        "id"@,
        "urn:md5:"@ + b.md5@,
    ) + text_elem_text("updated"@, updated) + start_text("author"@, Seq::empty()) + text_elem_text(
        "name"@,
        b.author@,
    ) + end_text("author"@) + elem_text(
        "summary"@,
        text_type_attrs(),
        "Downloads: "@ + dec_int(b.downloads as int),
    )
}

/// A book's Dublin Core metadata and subject categories.
pub open spec fn book_meta_text(b: BookEntry) -> Seq<char> {
    (match b.first_publish_year {
        Some(y) => text_elem_text("dc:issued"@, dec_int(y as int)),
        None => Seq::empty(),
    }) + (match opt_string_view(b.language) {
        Some(l) => text_elem_text("dc:language"@, l),
        None => Seq::empty(),
    }) + categories_text(strings_view(b.subjects@))
}

/// A book's cover, acquisition and archive links, and the end of its entry.
pub open spec fn book_links_text(b: BookEntry, base: Option<Seq<char>>, archive_base: Seq<char>) -> Seq<
    char,
> {
    image_link_text(
        "http://opds-spec.org/image/thumbnail"@,
        abs(base, "/opds/cover/"@ + b.md5@ + "?size=medium"@),
    ) + image_link_text("http://opds-spec.org/image"@, abs(base, "/opds/cover/"@ + b.md5@ + "?size=large"@))
        + empty_text(
        "link"@,
        seq![
            ("rel"@, "http://opds-spec.org/acquisition"@),
            ("href"@, abs(base, "/opds/download/"@ + b.md5@)),
            (
                "type"@,
                match opt_string_view(b.download_media_type) {
                    Some(t) => t,
                    None => DEFAULT_ACQ_TYPE@,
                },
            ),
        ],
    ) + empty_text(
        "link"@,
        seq![
            ("rel"@, "alternate"@),
            ("href"@, archive_base + "/md5/"@ + b.md5@),
            ("type"@, "text/html"@),
        ],
    ) + end_text("entry"@)
}

/// The entry of a book in an acquisition feed.
pub open spec fn book_entry_text(
    b: BookEntry,
    base: Option<Seq<char>>,
    archive_base: Seq<char>,
    updated: Seq<char>,
) -> Seq<char> {
    book_head_text(b, updated) + book_meta_text(b) + book_links_text(b, base, archive_base)
}

/// The entries of the books of an acquisition feed.
pub open spec fn book_entries_text(
    books: Seq<BookEntry>,
    base: Option<Seq<char>>,
    archive_base: Seq<char>,
    updated: Seq<char>,
) -> Seq<char>
    decreases books.len(),
{
    if books.len() == 0 {
        Seq::empty()
    } else {
        book_entries_text(books.drop_last(), base, archive_base, updated) + book_entry_text(
            books.last(),
            base,
            archive_base,
            updated,
        )
    }
}

/// `a - b`, or 0 when `b > a`.
pub open spec fn sat_sub(a: nat, b: nat) -> nat {
    if a >= b {
        (a - b) as nat
    } else {
        0
    }
}

/// `a * b`, or `usize::MAX` when that is larger.
pub open spec fn sat_mul(a: nat, b: nat) -> nat {
    if a * b > usize::MAX {
        usize::MAX as nat
    } else {
        a * b
    }
}

/// An OpenSearch count element.
pub open spec fn count_elem_text(tag: Seq<char>, n: nat) -> Seq<char> {
    elem_text(tag, Seq::empty(), dec_nat(n))
}

/// The search results feed for `query` at `page`.
pub open spec fn search_feed_text(
    query: Seq<char>,
    books: Seq<BookEntry>,
    page: nat,
    has_more: bool,
    base: Option<Seq<char>>,
    app: Seq<char>,
    archive_base: Seq<char>,
    updated: Seq<char>,
) -> Seq<char> {
    let n = books.len();
    start_feed_text("urn:"@ + app + ":search:"@ + url_encode(query) + ":page:"@ + dec_nat(page))
        + text_elem_text("title"@, "Search: "@ + query) + text_elem_text("updated"@, updated)
        + feed_author_text(app) + generator_text(app) + link_text(
        "self"@,
        abs(base, spec_search_page_path(query, page)),
        OPDS_CT_ACQ@,
    ) + link_text("start"@, abs(base, "/opds"@), OPDS_CT_NAV@) + link_text(
        "up"@,
        abs(base, "/opds"@),
        OPDS_CT_NAV@,
    ) + (if page > 1 {
        link_text("previous"@, abs(base, spec_search_page_path(query, (page - 1) as nat)), OPDS_CT_ACQ@)
    } else {
        Seq::empty()
    }) + (if has_more {
        link_text("next"@, abs(base, spec_search_page_path(query, page + 1)), OPDS_CT_ACQ@)
    } else {
        Seq::empty()
    }) + count_elem_text("opensearch:totalResults"@, n) + count_elem_text(
        "opensearch:itemsPerPage"@,
        n,
    ) + count_elem_text(
        "opensearch:startIndex"@,
        sat_mul(
            sat_sub(page, 1),
            if n < 1 {
                1
            } else {
                n
            },
        ),
    ) + book_entries_text(books, base, archive_base, updated) + end_feed_text()
}

/// The cover links of an explore entry, when its cover is an Open Library
/// cover id.
pub open spec fn explore_cover_links_text(cover_url: Option<Seq<char>>, base: Option<Seq<char>>) -> Seq<
    char,
> {
    match cover_url {
        Some(u) => match spec_extract_cover_id(u) {
            Some(id) => image_link_text(
                "http://opds-spec.org/image/thumbnail"@,
                abs(base, "/opds/cover/"@ + id + "?size=medium"@),
            ) + image_link_text("http://opds-spec.org/image"@, abs(base, "/opds/cover/"@ + id + "?size=large"@)),
            None => Seq::empty(),
        },
        None => Seq::empty(),
    }
}

/// The start of an explore entry: title, id, timestamp, author, summary,
/// year and categories.
pub open spec fn explore_head_text(e: ExploreEntry, updated: Seq<char>) -> Seq<char> {
    start_text("entry"@, Seq::empty()) + text_elem_text("title"@, e.title@) + text_elem_text("id"@, e.id@)
        + text_elem_text("updated"@, updated) + start_text("author"@, Seq::empty()) + text_elem_text(
        "name"@,
        e.author@,
    ) + end_text("author"@) + elem_text("summary"@, text_type_attrs(), e.summary@) + (
    match e.first_publish_year {
        Some(y) => text_elem_text("dc:issued"@, dec_int(y as int)),
        None => Seq::empty(),
    }) + categories_text(strings_view(e.subjects@))
}

/// The links of an explore entry and the end of the entry.
pub open spec fn explore_links_text(e: ExploreEntry, base: Option<Seq<char>>) -> Seq<char> {
    explore_cover_links_text(opt_string_view(e.cover_url), base) + empty_text(
        "link"@,
        seq![
            ("rel"@, "subsection"@),
            ("href"@, abs(base, "/opds/search?q="@ + url_encode(e.search_query@))),
            ("type"@, OPDS_CT_ACQ@),
        ],
    ) + empty_text(
        "link"@,
        seq![("rel"@, "alternate"@), ("href"@, e.alternate_url@), ("type"@, "text/html"@)],
    ) + end_text("entry"@)
}

/// The entry of a book in an explore feed.
pub open spec fn explore_entry_text(e: ExploreEntry, base: Option<Seq<char>>, updated: Seq<char>) -> Seq<
    char,
> {
    explore_head_text(e, updated) + explore_links_text(e, base)
}

/// The entries of an explore feed.
pub open spec fn explore_entries_text(
    entries: Seq<ExploreEntry>,
    base: Option<Seq<char>>,
    updated: Seq<char>,
) -> Seq<char>
    decreases entries.len(),
{
    if entries.len() == 0 {
        Seq::empty()
    } else {
        explore_entries_text(entries.drop_last(), base, updated) + explore_entry_text(
            entries.last(),
            base,
            updated,
        )
    }
}

/// One page of an explore feed.
pub open spec fn explore_feed_text(
    title: Seq<char>,
    id: Seq<char>,
    entries: Seq<ExploreEntry>,
    p: PaginationPaths,
    base: Option<Seq<char>>,
    app: Seq<char>,
    updated: Seq<char>,
) -> Seq<char> {
    start_feed_text(id) + text_elem_text("title"@, title) + text_elem_text("updated"@, updated)
        + feed_author_text(app) + generator_text(app) + link_text(
        "self"@,
        abs(base, p.self_href@),
        OPDS_CT_NAV@,
    ) + link_text("start"@, abs(base, "/opds"@), OPDS_CT_NAV@) + link_text(
        "up"@,
        abs(base, "/opds/explore"@),
        OPDS_CT_NAV@,
    ) + match p.previous_href {
        Some(h) => link_text("previous"@, abs(base, h@), OPDS_CT_NAV@),
        None => Seq::empty(),
    } + match p.next_href {
        Some(h) => link_text("next"@, abs(base, h@), OPDS_CT_NAV@),
        None => Seq::empty(),
    } + count_elem_text("opensearch:totalResults"@, p.total_items as nat) + count_elem_text(
        "opensearch:itemsPerPage"@,
        p.page_size as nat,
    ) + count_elem_text("opensearch:startIndex"@, sat_mul(sat_sub(p.page as nat, 1), p.page_size as nat))
        + explore_entries_text(entries, base, updated) + end_feed_text()
}

/// The OpenSearch description of the catalog's search.
pub open spec fn open_search_text(base: Option<Seq<char>>, app: Seq<char>, archive: Seq<char>) -> Seq<
    char,
> {
    decl_text("1.0"@, "UTF-8"@) + start_text("OpenSearchDescription"@, seq![("xmlns"@, OPENSEARCH_NS@)])
        + text_elem_text("ShortName"@, app) + text_elem_text(
        "Description"@,
        "Search "@ + archive + " through "@ + app,
    ) + empty_text(
        "Url"@,
        seq![("type"@, OPDS_CT_ACQ@), ("template"@, abs(base, "/opds/search?q={searchTerms}"@))],
    ) + end_text("OpenSearchDescription"@)
}

/// The catalog's root feed linking to search and to the explore feeds.
pub open spec fn root_feed_text(
    base: Option<Seq<char>>,
    app: Seq<char>,
    archive: Seq<char>,
    updated: Seq<char>,
) -> Seq<char> {
    start_feed_text("urn:"@ + app + ":root"@) + text_elem_text(
        "title"@,
        app + " — All of human knowledge. No late fees."@,
    ) + text_elem_text("updated"@, updated) + feed_author_text(app) + generator_text(app) + link_text(
        "self"@,
        abs(base, "/opds"@),
        OPDS_CT_NAV@,
    ) + link_text("start"@, abs(base, "/opds"@), OPDS_CT_NAV@) + link_text(
        "search"@,
        abs(base, "/opds/opensearch.xml"@),
        OPENSEARCH_CT@,
    ) + nav_entry_text(
        "Search Books"@,
        "urn:"@ + app + ":search"@,
        "Search "@ + archive + " through "@ + app + "."@,
        abs(base, "/opds/search?q="@),
        updated,
    ) + nav_entry_text(
        "Explore Books"@,
        "urn:"@ + app + ":explore"@,
        "Browse popular books and subjects."@,
        abs(base, "/opds/explore"@),
        updated,
    ) + end_feed_text()
}

// ---------------------------------------------------------------------------
// Executable feeds
// ---------------------------------------------------------------------------
/// Writes a navigation entry.
fn nav_entry(
    w: &mut Writer<Cursor<Vec<u8>>>,
    title: &str,
    id: &str,
    summary: &str,
    href: &str,
    updated: &str,
)
    ensures
        written(*final(w)) == written(*old(w)) + nav_entry_text(title@, id@, summary@, href@, updated@),
{
    let ghost w0 = written(*w);
    start_elem(w, "entry");
    text_elem(w, "title", title);
    text_elem(w, "id", id);
    text_elem(w, "updated", updated);
    let attrs = [("type", "text")];
    text_elem_with_attrs(w, "summary", &attrs, summary);
    link(w, "subsection", href, OPDS_CT_NAV);
    end_elem(w, "entry");
    proof {
        assert(attr_views(attrs@) =~= text_type_attrs());
        assert(written(*w) =~= w0 + nav_entry_text(title@, id@, summary@, href@, updated@));
    }
}

/// Writes the navigation entry of one subject.
fn subject_entry(
    w: &mut Writer<Cursor<Vec<u8>>>,
    public_base_url: Option<&str>,
    subject: &ExploreSubject,
    app_name: &str,
    updated: &str,
)
    ensures
        written(*final(w)) == written(*old(w)) + nav_entry_text(
            subject.name@,
            "urn:"@ + app_name@ + ":explore:subject:"@ + subject.slug@,
            "Browse popular books for "@ + subject.name@ + "."@,
            abs(opt_view(public_base_url), "/opds/explore/subject/"@ + subject.slug@),
            updated@,
        ),
{
    let mut id = concat3("urn:", app_name, ":explore:subject:");
    push_str(&mut id, subject.slug.as_str());
    let summary = concat3("Browse popular books for ", subject.name.as_str(), ".");
    let path = concat2("/opds/explore/subject/", subject.slug.as_str());
    let href = absolute_url(public_base_url, path.as_str());
    nav_entry(w, subject.name.as_str(), id.as_str(), summary.as_str(), href.as_str(), updated);
}

/// A navigation feed with the given title and subtitle, stamped `updated`.
pub fn navigation_feed_at(
    public_base_url: Option<&str>,
    self_href: &str,
    subjects: &Vec<ExploreSubject>,
    app_name: &str,
    feed_title: &str,
    subtitle: Option<&str>,
    updated: &str,
) -> (r: String)
    ensures
        r@ == navigation_feed_text(
            opt_view(public_base_url),
            self_href@,
            subjects@,
            app_name@,
            feed_title@,
            opt_view(subtitle),
            updated@,
        ),
{
    let ghost base = opt_view(public_base_url);
    let mut w = writer();
    let feed_id = concat2("urn:", app_name);
    let mut feed_id = feed_id;
    push_str(&mut feed_id, ":explore");
    start_feed(&mut w, feed_id.as_str());
    text_elem(&mut w, "title", feed_title);
    match subtitle {
        Some(s) => text_elem(&mut w, "subtitle", s),
        None => {},
    }
    let ghost w1 = written(w);
    text_elem(&mut w, "updated", updated);
    feed_author(&mut w, app_name);
    generator(&mut w, app_name);
    let self_url = absolute_url(public_base_url, self_href);
    link(&mut w, "self", self_url.as_str(), OPDS_CT_NAV);
    let search_url = absolute_url(public_base_url, "/opds/opensearch.xml");
    link(&mut w, "search", search_url.as_str(), OPENSEARCH_CT);
    let root_url = absolute_url(public_base_url, "/opds");
    link(&mut w, "start", root_url.as_str(), OPDS_CT_NAV);
    link(&mut w, "up", root_url.as_str(), OPDS_CT_NAV);
    let top_id = concat3("urn:", app_name, ":explore:top");
    let top_url = absolute_url(public_base_url, "/opds/explore/top");
    nav_entry(
        &mut w,
        "Popular Top 250",
        top_id.as_str(),
        "Browse a popularity-weighted list.",
        top_url.as_str(),
        updated,
    );
    let ghost w2 = written(w);
    let mut i: usize = 0;
    while i < subjects.len()
        invariant
            i <= subjects.len(),
            base == opt_view(public_base_url),
            written(w) == w2 + subject_entries_text(base, subjects@.take(i as int), app_name@, updated@),
        decreases subjects.len() - i,
    {
        let ghost before = written(w);
        subject_entry(&mut w, public_base_url, &subjects[i], app_name, updated);
        proof {
            let t = subjects@.take(i + 1);
            assert(t.drop_last() =~= subjects@.take(i as int));
            assert(t.last() == subjects@[i as int]);
            assert(written(w) =~= w2 + subject_entries_text(base, t, app_name@, updated@));
        }
        i = i + 1;
    }
    end_feed(&mut w);
    proof {
        assert(subjects@.take(subjects.len() as int) =~= subjects@);
        let sub = match opt_view(subtitle) {
            Some(s) => text_elem_text("subtitle"@, s),
            None => Seq::<char>::empty(),
        };
        let head = start_feed_text("urn:"@ + app_name@ + ":explore"@) + text_elem_text("title"@, feed_title@);
        assert(w1 =~= head + sub);
        assert(written(w) =~= navigation_feed_text(
            base,
            self_href@,
            subjects@,
            app_name@,
            feed_title@,
            opt_view(subtitle),
            updated@,
        ));
    }
    finish(w)
}

/// The explore navigation feed stamped `updated`.
pub fn explore_root_feed_at(
    public_base_url: Option<&str>,
    self_href: &str,
    subjects: &Vec<ExploreSubject>,
    app_name: &str,
    archive_name: &str,
    updated: &str,
) -> (r: String)
    ensures
        r@ == navigation_feed_text(
            opt_view(public_base_url),
            self_href@,
            subjects@,
            app_name@,
            "Explore Books"@,
            Some("Browse "@ + archive_name@ + " through "@ + app_name@ + "."@),
            updated@,
        ),
{
    let mut subtitle = concat3("Browse ", archive_name, " through ");
    push_str(&mut subtitle, app_name);
    push_str(&mut subtitle, ".");
    navigation_feed_at(
        public_base_url,
        self_href,
        subjects,
        app_name,
        "Explore Books",
        Some(subtitle.as_str()),
        updated,
    )
}

/// The explore navigation feed: the popular top list and one entry per
/// subject, stamped with the current time.
pub fn explore_root_feed(
    public_base_url: Option<&str>,
    self_href: &str,
    subjects: &Vec<ExploreSubject>,
    app_name: &str,
    archive_name: &str,
) -> (r: String)
    ensures
        exists|secs: nat|
            r@ == navigation_feed_text(
                opt_view(public_base_url),
                self_href@,
                subjects@,
                app_name@,
                "Explore Books"@,
                Some("Browse "@ + archive_name@ + " through "@ + app_name@ + "."@),
                #[trigger] spec_rfc3339(secs),
            ),
{
    let updated = now_rfc3339();
    explore_root_feed_at(public_base_url, self_href, subjects, app_name, archive_name, updated.as_str())
}

/// The catalog's root navigation feed stamped `updated`: titled with the
/// application's name.
pub fn root_navigation_feed_at(
    public_base_url: Option<&str>,
    self_href: &str,
    subjects: &Vec<ExploreSubject>,
    app_name: &str,
    archive_name: &str,
    updated: &str,
) -> (r: String)
    ensures
        r@ == navigation_feed_text(
            opt_view(public_base_url),
            self_href@,
            subjects@,
            app_name@,
            app_name@,
            Some("Browse and search "@ + archive_name@ + " through "@ + app_name@ + "."@),
            updated@,
        ),
{
    let mut subtitle = concat3("Browse and search ", archive_name, " through ");
    push_str(&mut subtitle, app_name);
    push_str(&mut subtitle, ".");
    navigation_feed_at(
        public_base_url,
        self_href,
        subjects,
        app_name,
        app_name,
        Some(subtitle.as_str()),
        updated,
    )
}

/// The catalog's root navigation feed, stamped with the current time.
pub fn root_navigation_feed(
    public_base_url: Option<&str>,
    self_href: &str,
    subjects: &Vec<ExploreSubject>,
    app_name: &str,
    archive_name: &str,
) -> (r: String)
    ensures
        exists|secs: nat|
            r@ == navigation_feed_text(
                opt_view(public_base_url),
                self_href@,
                subjects@,
                app_name@,
                app_name@,
                Some("Browse and search "@ + archive_name@ + " through "@ + app_name@ + "."@),
                #[trigger] spec_rfc3339(secs),
            ),
{
    let updated = now_rfc3339();
    root_navigation_feed_at(public_base_url, self_href, subjects, app_name, archive_name, updated.as_str())
}

/// Writes the `category` elements of `subjects`.
fn categories(w: &mut Writer<Cursor<Vec<u8>>>, subjects: &Vec<String>)
    ensures
        written(*final(w)) == written(*old(w)) + categories_text(strings_view(subjects@)),
{
    let ghost w0 = written(*w);
    let mut i: usize = 0;
    while i < subjects.len()
        invariant
            i <= subjects.len(),
            written(*w) == w0 + categories_text(strings_view(subjects@.take(i as int))),
        decreases subjects.len() - i,
    {
        let s = subjects[i].as_str();
        let attrs = [("term", s), ("label", s)];
        empty_elem_with_attrs(w, "category", &attrs);
        proof {
            assert(attr_views(attrs@) =~= seq![("term"@, s@), ("label"@, s@)]);
            let t = strings_view(subjects@.take(i + 1));
            assert(t.drop_last() =~= strings_view(subjects@.take(i as int)));
            assert(t.last() == s@);
            assert(written(*w) =~= w0 + categories_text(t));
        }
        i = i + 1;
    }
    assert(subjects@.take(subjects.len() as int) =~= subjects@);
}

/// Writes an image link.
fn image_link(w: &mut Writer<Cursor<Vec<u8>>>, rel: &str, href: &str)
    ensures
        written(*final(w)) == written(*old(w)) + image_link_text(rel@, href@),
{
    let attrs = [("rel", rel), ("href", href), ("type", "image/jpeg")];
    empty_elem_with_attrs(w, "link", &attrs);
    assert(attr_views(attrs@) =~= seq![("rel"@, rel@), ("href"@, href@), ("type"@, "image/jpeg"@)]);
}

/// Writes the author element of an entry.
fn entry_author(w: &mut Writer<Cursor<Vec<u8>>>, author: &str)
    ensures
        written(*final(w)) == written(*old(w)) + start_text("author"@, Seq::empty()) + text_elem_text(
            "name"@,
            author@,
        ) + end_text("author"@),
{
    start_elem(w, "author");
    text_elem(w, "name", author);
    end_elem(w, "author");
}

/// Writes a plain-text `summary`.
fn text_summary(w: &mut Writer<Cursor<Vec<u8>>>, summary: &str)
    ensures
        written(*final(w)) == written(*old(w)) + elem_text("summary"@, text_type_attrs(), summary@),
{
    let attrs = [("type", "text")];
    text_elem_with_attrs(w, "summary", &attrs, summary);
    assert(attr_views(attrs@) =~= text_type_attrs());
}

/// Writes the start of a book's entry.
fn entry_head(w: &mut Writer<Cursor<Vec<u8>>>, book: &BookEntry, updated: &str)
    ensures
        written(*final(w)) == written(*old(w)) + book_head_text(*book, updated@),
{
    let ghost w0 = written(*w);
    start_elem(w, "entry");
    text_elem(w, "title", book.title.as_str());
    let id = concat2("urn:md5:", book.md5.as_str());
    text_elem(w, "id", id.as_str());
    text_elem(w, "updated", updated);
    entry_author(w, book.author.as_str());
    let downloads = i64_to_string(book.downloads);
    let summary = concat2("Downloads: ", downloads.as_str());
    text_summary(w, summary.as_str());
    assert(written(*w) =~= w0 + book_head_text(*book, updated@));
}

/// Writes a book's metadata and categories.
fn entry_meta(w: &mut Writer<Cursor<Vec<u8>>>, book: &BookEntry)
    ensures
        written(*final(w)) == written(*old(w)) + book_meta_text(*book),
{
    let ghost w0 = written(*w);
    match book.first_publish_year {
        Some(year) => {
            let y = i64_to_string(year);
            text_elem(w, "dc:issued", y.as_str());
        },
        None => {},
    }
    let ghost w1 = written(*w);
    match &book.language {
        Some(lang) => text_elem(w, "dc:language", lang.as_str()),
        None => {},
    }
    let ghost w2 = written(*w);
    categories(w, &book.subjects);
    proof {
        let year_part = match book.first_publish_year {
            Some(y) => text_elem_text("dc:issued"@, dec_int(y as int)),
            None => Seq::<char>::empty(),
        };
        let lang_part = match opt_string_view(book.language) {
            Some(l) => text_elem_text("dc:language"@, l),
            None => Seq::<char>::empty(),
        };
        assert(w1 =~= w0 + year_part);
        assert(w2 =~= w1 + lang_part);
        assert(written(*w) =~= w0 + book_meta_text(*book));
    }
}

/// Writes a book's links and the end of its entry.
fn entry_links(
    w: &mut Writer<Cursor<Vec<u8>>>,
    book: &BookEntry,
    public_base_url: Option<&str>,
    archive_base: &str,
)
    ensures
        written(*final(w)) == written(*old(w)) + book_links_text(
            *book,
            opt_view(public_base_url),
            archive_base@,
        ),
{
    let ghost base = opt_view(public_base_url);
    let ghost w0 = written(*w);
    let md5 = book.md5.as_str();
    let thumb_path = concat3("/opds/cover/", md5, "?size=medium");
    let thumb = absolute_url(public_base_url, thumb_path.as_str());
    image_link(w, "http://opds-spec.org/image/thumbnail", thumb.as_str());
    let image_path = concat3("/opds/cover/", md5, "?size=large");
    let image = absolute_url(public_base_url, image_path.as_str());
    image_link(w, "http://opds-spec.org/image", image.as_str());
    let download_path = concat2("/opds/download/", md5);
    let download = absolute_url(public_base_url, download_path.as_str());
    let media_type = match &book.download_media_type {
        Some(t) => t.as_str(),
        None => DEFAULT_ACQ_TYPE,
    };
    let acq = [("rel", "http://opds-spec.org/acquisition"), ("href", download.as_str()), ("type", media_type)];
    empty_elem_with_attrs(w, "link", &acq);
    let alternate_href = concat3(archive_base, "/md5/", md5);
    let alt = [("rel", "alternate"), ("href", alternate_href.as_str()), ("type", "text/html")];
    empty_elem_with_attrs(w, "link", &alt);
    end_elem(w, "entry");
    proof {
        assert(attr_views(acq@) =~= seq![
            ("rel"@, "http://opds-spec.org/acquisition"@),
            ("href"@, abs(base, "/opds/download/"@ + book.md5@)),
            (
                "type"@,
                match opt_string_view(book.download_media_type) {
                    Some(t) => t,
                    None => DEFAULT_ACQ_TYPE@,
                },
            ),
        ]);
        assert(attr_views(alt@) =~= seq![
            ("rel"@, "alternate"@),
            ("href"@, archive_base@ + "/md5/"@ + book.md5@),
            ("type"@, "text/html"@),
        ]);
        assert(written(*w) =~= w0 + book_links_text(*book, base, archive_base@));
    }
}

/// Writes the entry of a book in an acquisition feed.
fn entry(
    w: &mut Writer<Cursor<Vec<u8>>>,
    book: &BookEntry,
    public_base_url: Option<&str>,
    archive_base: &str,
    updated: &str,
)
    ensures
        written(*final(w)) == written(*old(w)) + book_entry_text(
            *book,
            opt_view(public_base_url),
            archive_base@,
            updated@,
        ),
{
    let ghost w0 = written(*w);
    entry_head(w, book, updated);
    entry_meta(w, book);
    entry_links(w, book, public_base_url, archive_base);
    assert(written(*w) =~= w0 + book_entry_text(*book, opt_view(public_base_url), archive_base@, updated@));
}

/// Writes an OpenSearch count element.
fn count_elem(w: &mut Writer<Cursor<Vec<u8>>>, tag: &str, n: usize)
    ensures
        written(*final(w)) == written(*old(w)) + count_elem_text(tag@, n as nat),
{
    let digits = usize_to_string(n);
    let attrs: [(&str, &str); 0] = [];
    text_elem_with_attrs(w, tag, &attrs, digits.as_str());
    assert(attr_views(attrs@) =~= Seq::<(Seq<char>, Seq<char>)>::empty());
}

/// `a * b`, or `usize::MAX` when that is larger.
fn saturating_mul(a: usize, b: usize) -> (r: usize)
    ensures
        r == sat_mul(a as nat, b as nat),
{
    match a.checked_mul(b) {
        Some(r) => r,
        None => usize::MAX,
    }
}

/// The search results feed for `query` at `page` stamped `updated`.
#[verifier::rlimit(60)]
pub fn search_feed_at(
    query: &str,
    books: &Vec<BookEntry>,
    page: usize,
    has_more: bool,
    public_base_url: Option<&str>,
    app_name: &str,
    archive_name: &str,
    archive_base: &str,
    updated: &str,
) -> (r: String)
    requires
        has_more ==> page < usize::MAX,
    ensures
        r@ == search_feed_text(
            query@,
            books@,
            page as nat,
            has_more,
            opt_view(public_base_url),
            app_name@,
            archive_base@,
            updated@,
        ),
{
    let ghost base = opt_view(public_base_url);
    let mut w = writer();
    let encoded = url_encode_str(query);
    let mut feed_id = concat3("urn:", app_name, ":search:");
    push_str(&mut feed_id, encoded.as_str());
    push_str(&mut feed_id, ":page:");
    let page_digits = u64_to_dec(page as u64);
    push_chars(&mut feed_id, &page_digits);
    start_feed(&mut w, feed_id.as_str());
    let title = concat2("Search: ", query);
    text_elem(&mut w, "title", title.as_str());
    text_elem(&mut w, "updated", updated);
    feed_author(&mut w, app_name);
    generator(&mut w, app_name);
    let self_path = search_page_path(query, page);
    let self_url = absolute_url(public_base_url, self_path.as_str());
    link(&mut w, "self", self_url.as_str(), OPDS_CT_ACQ);
    let root_url = absolute_url(public_base_url, "/opds");
    link(&mut w, "start", root_url.as_str(), OPDS_CT_NAV);
    link(&mut w, "up", root_url.as_str(), OPDS_CT_NAV);
    let ghost w1 = written(w);
    if page > 1 {
        let prev_path = search_page_path(query, page - 1);
        let prev_url = absolute_url(public_base_url, prev_path.as_str());
        link(&mut w, "previous", prev_url.as_str(), OPDS_CT_ACQ);
    }
    let ghost w2 = written(w);
    if has_more {
        let next_path = search_page_path(query, page + 1);
        let next_url = absolute_url(public_base_url, next_path.as_str());
        link(&mut w, "next", next_url.as_str(), OPDS_CT_ACQ);
    }
    let ghost w3 = written(w);
    count_elem(&mut w, "opensearch:totalResults", books.len());
    count_elem(&mut w, "opensearch:itemsPerPage", books.len());
    let per_page = if books.len() < 1 {
        1
    } else {
        books.len()
    };
    let before = if page >= 1 {
        page - 1
    } else {
        0
    };
    count_elem(&mut w, "opensearch:startIndex", saturating_mul(before, per_page));
    let ghost w4 = written(w);
    let mut i: usize = 0;
    while i < books.len()
        invariant
            i <= books.len(),
            base == opt_view(public_base_url),
            written(w) == w4 + book_entries_text(books@.take(i as int), base, archive_base@, updated@),
        decreases books.len() - i,
    {
        entry(&mut w, &books[i], public_base_url, archive_base, updated);
        proof {
            let t = books@.take(i + 1);
            assert(t.drop_last() =~= books@.take(i as int));
            assert(t.last() == books@[i as int]);
            assert(written(w) =~= w4 + book_entries_text(t, base, archive_base@, updated@));
        }
        i = i + 1;
    }
    end_feed(&mut w);
    proof {
        assert(books@.take(books.len() as int) =~= books@);
        let prev_part = if page > 1 {
            link_text("previous"@, abs(base, spec_search_page_path(query@, (page - 1) as nat)), OPDS_CT_ACQ@)
        } else {
            Seq::<char>::empty()
        };
        let next_part = if has_more {
            link_text("next"@, abs(base, spec_search_page_path(query@, (page + 1) as nat)), OPDS_CT_ACQ@)
        } else {
            Seq::<char>::empty()
        };
        assert(w2 =~= w1 + prev_part);
        assert(w3 =~= w2 + next_part);
        assert(written(w) =~= search_feed_text(
            query@,
            books@,
            page as nat,
            has_more,
            base,
            app_name@,
            archive_base@,
            updated@,
        ));
    }
    finish(w)
}

/// The search results feed for `query` at `page`, stamped with the current
/// time.
pub fn search_feed(
    query: &str,
    books: &Vec<BookEntry>,
    page: usize,
    has_more: bool,
    public_base_url: Option<&str>,
    app_name: &str,
    archive_name: &str,
    archive_base: &str,
) -> (r: String)
    requires
        has_more ==> page < usize::MAX,
    ensures
        exists|secs: nat|
            r@ == search_feed_text(
                query@,
                books@,
                page as nat,
                has_more,
                opt_view(public_base_url),
                app_name@,
                archive_base@,
                #[trigger] spec_rfc3339(secs),
            ),
{
    let updated = now_rfc3339();
    search_feed_at(
        query,
        books,
        page,
        has_more,
        public_base_url,
        app_name,
        archive_name,
        archive_base,
        updated.as_str(),
    )
}

/// Writes the start of an explore entry.
fn explore_entry_head(w: &mut Writer<Cursor<Vec<u8>>>, e: &ExploreEntry, updated: &str)
    ensures
        written(*final(w)) == written(*old(w)) + explore_head_text(*e, updated@),
{
    let ghost w0 = written(*w);
    start_elem(w, "entry");
    text_elem(w, "title", e.title.as_str());
    text_elem(w, "id", e.id.as_str());
    text_elem(w, "updated", updated);
    entry_author(w, e.author.as_str());
    text_summary(w, e.summary.as_str());
    let ghost w1 = written(*w);
    match e.first_publish_year {
        Some(year) => {
            let y = i64_to_string(year);
            text_elem(w, "dc:issued", y.as_str());
        },
        None => {},
    }
    let ghost w2 = written(*w);
    categories(w, &e.subjects);
    proof {
        let year_part = match e.first_publish_year {
            Some(y) => text_elem_text("dc:issued"@, dec_int(y as int)),
            None => Seq::<char>::empty(),
        };
        assert(w2 =~= w1 + year_part);
        assert(written(*w) =~= w0 + explore_head_text(*e, updated@));
    }
}

/// Writes the cover links of an explore entry, if its cover is an Open
/// Library cover id.
fn explore_cover_links(w: &mut Writer<Cursor<Vec<u8>>>, cover_url: &Option<String>, public_base_url: Option<&str>)
    ensures
        written(*final(w)) == written(*old(w)) + explore_cover_links_text(
            opt_string_view(*cover_url),
            opt_view(public_base_url),
        ),
{
    let ghost w0 = written(*w);
    match cover_url {
        Some(u) => match extract_cover_id(u.as_str()) {
            Some(cover_id) => {
                let thumb_path = concat3("/opds/cover/", cover_id, "?size=medium");
                let thumb = absolute_url(public_base_url, thumb_path.as_str());
                image_link(w, "http://opds-spec.org/image/thumbnail", thumb.as_str());
                let image_path = concat3("/opds/cover/", cover_id, "?size=large");
                let image = absolute_url(public_base_url, image_path.as_str());
                image_link(w, "http://opds-spec.org/image", image.as_str());
                assert(written(*w) =~= w0 + explore_cover_links_text(
                    opt_string_view(*cover_url),
                    opt_view(public_base_url),
                ));
            },
            None => {
                assert(written(*w) =~= w0 + Seq::<char>::empty());
            },
        },
        None => {
            assert(written(*w) =~= w0 + Seq::<char>::empty());
        },
    }
}

/// Writes the links of an explore entry and ends it.
fn explore_entry_links(w: &mut Writer<Cursor<Vec<u8>>>, e: &ExploreEntry, public_base_url: Option<&str>)
    ensures
        written(*final(w)) == written(*old(w)) + explore_links_text(*e, opt_view(public_base_url)),
{
    let ghost w0 = written(*w);
    let ghost base = opt_view(public_base_url);
    explore_cover_links(w, &e.cover_url, public_base_url);
    let encoded = url_encode_str(e.search_query.as_str());
    let search_path = concat2("/opds/search?q=", encoded.as_str());
    let search_url = absolute_url(public_base_url, search_path.as_str());
    let sub = [("rel", "subsection"), ("href", search_url.as_str()), ("type", OPDS_CT_ACQ)];
    empty_elem_with_attrs(w, "link", &sub);
    let alt = [("rel", "alternate"), ("href", e.alternate_url.as_str()), ("type", "text/html")];
    empty_elem_with_attrs(w, "link", &alt);
    end_elem(w, "entry");
    proof {
        assert(attr_views(sub@) =~= seq![
            ("rel"@, "subsection"@),
            ("href"@, abs(base, "/opds/search?q="@ + url_encode(e.search_query@))),
            ("type"@, OPDS_CT_ACQ@),
        ]);
        assert(attr_views(alt@) =~= seq![
            ("rel"@, "alternate"@),
            ("href"@, e.alternate_url@),
            ("type"@, "text/html"@),
        ]);
        assert(written(*w) =~= w0 + explore_links_text(*e, base));
    }
}

/// Writes the entry of a book in an explore feed.
fn explore_entry(w: &mut Writer<Cursor<Vec<u8>>>, e: &ExploreEntry, public_base_url: Option<&str>, updated: &str)
    ensures
        written(*final(w)) == written(*old(w)) + explore_entry_text(*e, opt_view(public_base_url), updated@),
{
    let ghost w0 = written(*w);
    explore_entry_head(w, e, updated);
    explore_entry_links(w, e, public_base_url);
    assert(written(*w) =~= w0 + explore_entry_text(*e, opt_view(public_base_url), updated@));
}

/// One page of an explore feed stamped `updated`.
#[verifier::rlimit(60)]
pub fn explore_feed_at(
    title: &str,
    id: &str,
    entries: &Vec<ExploreEntry>,
    pagination: &PaginationPaths,
    public_base_url: Option<&str>,
    app_name: &str,
    updated: &str,
) -> (r: String)
    ensures
        r@ == explore_feed_text(
            title@,
            id@,
            entries@,
            *pagination,
            opt_view(public_base_url),
            app_name@,
            updated@,
        ),
{
    let ghost base = opt_view(public_base_url);
    let mut w = writer();
    start_feed(&mut w, id);
    text_elem(&mut w, "title", title);
    text_elem(&mut w, "updated", updated);
    feed_author(&mut w, app_name);
    generator(&mut w, app_name);
    let self_url = absolute_url(public_base_url, pagination.self_href.as_str());
    link(&mut w, "self", self_url.as_str(), OPDS_CT_NAV);
    let root_url = absolute_url(public_base_url, "/opds");
    link(&mut w, "start", root_url.as_str(), OPDS_CT_NAV);
    let up_url = absolute_url(public_base_url, "/opds/explore");
    link(&mut w, "up", up_url.as_str(), OPDS_CT_NAV);
    let ghost w1 = written(w);
    match &pagination.previous_href {
        Some(previous_href) => {
            let url = absolute_url(public_base_url, previous_href.as_str());
            link(&mut w, "previous", url.as_str(), OPDS_CT_NAV);
        },
        None => {},
    }
    let ghost w2 = written(w);
    match &pagination.next_href {
        Some(next_href) => {
            let url = absolute_url(public_base_url, next_href.as_str());
            link(&mut w, "next", url.as_str(), OPDS_CT_NAV);
        },
        None => {},
    }
    let ghost w3 = written(w);
    count_elem(&mut w, "opensearch:totalResults", pagination.total_items);
    count_elem(&mut w, "opensearch:itemsPerPage", pagination.page_size);
    let before = if pagination.page >= 1 {
        pagination.page - 1
    } else {
        0
    };
    count_elem(&mut w, "opensearch:startIndex", saturating_mul(before, pagination.page_size));
    let ghost w4 = written(w);
    let mut i: usize = 0;
    while i < entries.len()
        invariant
            i <= entries.len(),
            base == opt_view(public_base_url),
            written(w) == w4 + explore_entries_text(entries@.take(i as int), base, updated@),
        decreases entries.len() - i,
    {
        explore_entry(&mut w, &entries[i], public_base_url, updated);
        proof {
            let t = entries@.take(i + 1);
            assert(t.drop_last() =~= entries@.take(i as int));
            assert(t.last() == entries@[i as int]);
            assert(written(w) =~= w4 + explore_entries_text(t, base, updated@));
        }
        i = i + 1;
    }
    end_feed(&mut w);
    proof {
        assert(entries@.take(entries.len() as int) =~= entries@);
        let prev_part = match opt_string_view(pagination.previous_href) {
            Some(h) => link_text("previous"@, abs(base, h), OPDS_CT_NAV@),
            None => Seq::<char>::empty(),
        };
        let next_part = match opt_string_view(pagination.next_href) {
            Some(h) => link_text("next"@, abs(base, h), OPDS_CT_NAV@),
            None => Seq::<char>::empty(),
        };
        assert(w2 =~= w1 + prev_part);
        assert(w3 =~= w2 + next_part);
        assert(written(w) =~= explore_feed_text(
            title@,
            id@,
            entries@,
            *pagination,
            base,
            app_name@,
            updated@,
        ));
    }
    finish(w)
}

/// One page of an explore feed, stamped with the current time.
pub fn explore_feed(
    title: &str,
    id: &str,
    entries: &Vec<ExploreEntry>,
    pagination: &PaginationPaths,
    public_base_url: Option<&str>,
    app_name: &str,
) -> (r: String)
    ensures
        exists|secs: nat|
            r@ == explore_feed_text(
                title@,
                id@,
                entries@,
                *pagination,
                opt_view(public_base_url),
                app_name@,
                #[trigger] spec_rfc3339(secs),
            ),
{
    let updated = now_rfc3339();
    explore_feed_at(title, id, entries, pagination, public_base_url, app_name, updated.as_str())
}

/// The OpenSearch description pointing clients at the search feed.
pub fn build_open_search_description(public_base_url: Option<&str>, app_name: &str, archive_name: &str) -> (r:
    String)
    ensures
        r@ == open_search_text(opt_view(public_base_url), app_name@, archive_name@),
{
    let mut w = writer();
    xml_decl(&mut w);
    let root_attrs = [("xmlns", OPENSEARCH_NS)];
    let root = crate::opds::xml::start_with_attrs("OpenSearchDescription", &root_attrs);
    crate::opds::xml::write_start(&mut w, root);
    text_elem(&mut w, "ShortName", app_name);
    let mut description = concat3("Search ", archive_name, " through ");
    push_str(&mut description, app_name);
    text_elem(&mut w, "Description", description.as_str());
    let template = absolute_url(public_base_url, "/opds/search?q={searchTerms}");
    let url_attrs = [("type", OPDS_CT_ACQ), ("template", template.as_str())];
    empty_elem_with_attrs(&mut w, "Url", &url_attrs);
    end_elem(&mut w, "OpenSearchDescription");
    proof {
        assert(attr_views(root_attrs@) =~= seq![("xmlns"@, OPENSEARCH_NS@)]);
        assert(attr_views(url_attrs@) =~= seq![
            ("type"@, OPDS_CT_ACQ@),
            ("template"@, abs(opt_view(public_base_url), "/opds/search?q={searchTerms}"@)),
        ]);
        assert(Seq::<char>::empty() + decl_text("1.0"@, "UTF-8"@) =~= decl_text("1.0"@, "UTF-8"@));
        assert(written(w) =~= open_search_text(opt_view(public_base_url), app_name@, archive_name@));
    }
    finish(w)
}

/// The catalog's root feed linking to search and to the explore feeds,
/// stamped `updated`.
pub fn build_root_feed_at(public_base_url: Option<&str>, app_name: &str, archive_name: &str, updated: &str) -> (r:
    String)
    ensures
        r@ == root_feed_text(opt_view(public_base_url), app_name@, archive_name@, updated@),
{
    let mut w = writer();
    let feed_id = concat3("urn:", app_name, ":root");
    start_feed(&mut w, feed_id.as_str());
    let title = concat2(app_name, " — All of human knowledge. No late fees.");
    text_elem(&mut w, "title", title.as_str());
    text_elem(&mut w, "updated", updated);
    feed_author(&mut w, app_name);
    generator(&mut w, app_name);
    let root_url = absolute_url(public_base_url, "/opds");
    link(&mut w, "self", root_url.as_str(), OPDS_CT_NAV);
    link(&mut w, "start", root_url.as_str(), OPDS_CT_NAV);
    let search_url = absolute_url(public_base_url, "/opds/opensearch.xml");
    link(&mut w, "search", search_url.as_str(), OPENSEARCH_CT);
    let search_id = concat3("urn:", app_name, ":search");
    let mut search_summary = concat3("Search ", archive_name, " through ");
    push_str(&mut search_summary, app_name);
    push_str(&mut search_summary, ".");
    let search_href = absolute_url(public_base_url, "/opds/search?q=");
    nav_entry(&mut w, "Search Books", search_id.as_str(), search_summary.as_str(), search_href.as_str(), updated);
    let explore_id = concat3("urn:", app_name, ":explore");
    let explore_href = absolute_url(public_base_url, "/opds/explore");
    nav_entry(
        &mut w,
        "Explore Books",
        explore_id.as_str(),
        "Browse popular books and subjects.",
        explore_href.as_str(),
        updated,
    );
    end_feed(&mut w);
    assert(written(w) =~= root_feed_text(opt_view(public_base_url), app_name@, archive_name@, updated@));
    finish(w)
}

/// The catalog's root feed, stamped with the current time.
pub fn build_root_feed(public_base_url: Option<&str>, app_name: &str, archive_name: &str) -> (r: String)
    ensures
        exists|secs: nat|
            r@ == root_feed_text(
                opt_view(public_base_url),
                app_name@,
                archive_name@,
                #[trigger] spec_rfc3339(secs),
            ),
{
    let updated = now_rfc3339();
    build_root_feed_at(public_base_url, app_name, archive_name, updated.as_str())
}

} // verus!
