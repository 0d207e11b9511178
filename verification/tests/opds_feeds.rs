use shelfd::models::{BookEntry, ExploreEntry};
use shelfd::opds::feeds::{
    build_open_search_description, build_root_feed, explore_feed, explore_root_feed,
    root_navigation_feed, search_feed, PaginationPaths,
};
use shelfd::service::explore::explore_pagination_paths;
use shelfd::state::ExploreSubject;

fn science_fiction() -> Vec<ExploreSubject> {
    vec![ExploreSubject {
        slug: "science_fiction".to_owned(),
        name: "Science Fiction".to_owned(),
    }]
}

fn example_book() -> BookEntry {
    BookEntry {
        md5: "abc123".to_owned(),
        title: "Example Book".to_owned(),
        author: "Example Author".to_owned(),
        downloads: 42,
        cover_url: Some("https://covers.openlibrary.org/b/id/12345-M.jpg".to_owned()),
        download_media_type: Some("application/epub+zip".to_owned()),
        cover_checked_at: None,
        first_publish_year: Some(1954),
        language: Some("eng".to_owned()),
        subjects: vec!["Science Fiction".to_owned(), "Fantasy".to_owned()],
        description: None,
    }
}

fn plain_book() -> BookEntry {
    BookEntry {
        md5: "abc123".to_owned(),
        title: "Example Book".to_owned(),
        author: "Example Author".to_owned(),
        downloads: 42,
        cover_url: None,
        download_media_type: None,
        cover_checked_at: None,
        first_publish_year: None,
        language: None,
        subjects: vec![],
        description: None,
    }
}

#[test]
fn root_feed_contains_search_link() {
    let xml = build_root_feed(None, "shelfie", "Archive");
    assert!(xml.contains("shelfie — All of human knowledge. No late fees."));
    assert!(xml.contains("rel=\"search\""));
    assert!(xml.contains("/opds/opensearch.xml"));
    assert!(xml.contains("xmlns:opensearch=\"http://a9.com/-/spec/opensearch/1.1/\""));
    assert!(xml.contains("xmlns:dc=\"http://purl.org/dc/terms/\""));
    assert!(xml.contains("/opds/explore"));
}

#[test]
fn opds_search_feed_contains_entries_and_download_links() {
    let books = vec![example_book()];
    let xml = search_feed(
        "example query",
        &books,
        1,
        false,
        None,
        "shelfie",
        "Archive",
        "https://example.com",
    );
    assert!(xml.contains("Search: example query"));
    assert!(xml.contains("urn:md5:abc123"));
    assert!(xml.contains("/opds/download/abc123"));
    assert!(xml.contains("/opds/cover/abc123"));
    assert!(xml.contains("<opensearch:totalResults>1</opensearch:totalResults>"));
    assert!(xml.contains("<summary type=\"text\">Downloads: 42</summary>"));
    assert!(xml.contains("type=\"application/epub+zip\""));
    assert!(xml.contains("<dc:issued>1954</dc:issued>"));
    assert!(xml.contains("<dc:language>eng</dc:language>"));
    assert!(xml.contains("<category term=\"Science Fiction\""));
    assert!(xml.contains("<category term=\"Fantasy\""));
    assert!(!xml.contains("rel=\"next\""));
    assert!(!xml.contains("rel=\"previous\""));
}

#[test]
fn opds_search_feed_pagination_links() {
    let books = vec![plain_book()];
    let xml = search_feed(
        "dune",
        &books,
        2,
        true,
        None,
        "shelfie",
        "Archive",
        "https://example.com",
    );
    assert!(xml.contains("rel=\"next\""));
    assert!(xml.contains("/opds/search?q=dune&amp;page=3"));
    assert!(xml.contains("rel=\"previous\""));
    assert!(xml.contains("/opds/search?q=dune&amp;page=1"));
}

#[test]
fn opds_open_search_description_points_to_search_template() {
    let xml = build_open_search_description(Some("http://localhost:7451"), "shelfie", "Archive");
    assert!(xml.contains("OpenSearchDescription"));
    assert!(xml.contains("template=\"http://localhost:7451/opds/search?q={searchTerms}\""));
}

#[test]
fn opds_explore_root_feed_contains_top_and_subject_links() {
    let xml = explore_root_feed(
        Some("http://localhost:7451"),
        "/opds/explore",
        &science_fiction(),
        "shelfie",
        "Archive",
    );
    assert!(xml.contains("Popular Top 250"));
    assert!(xml.contains("/opds/explore/top"));
    assert!(xml.contains("/opds/explore/subject/science_fiction"));
}

#[test]
fn explore_root_feed_is_default_navigation() {
    let xml = explore_root_feed(None, "/opds/explore", &science_fiction(), "shelfd", "Archive");
    assert!(xml.contains("Explore Books"));
    assert!(xml.contains("Browse Archive through shelfd."));
    assert!(xml.contains("rel=\"search\""));
    assert!(xml.contains("/opds/opensearch.xml"));
    assert!(xml.contains("xmlns:opensearch=\"http://a9.com/-/spec/opensearch/1.1/\""));
    assert!(xml.contains("xmlns:dc=\"http://purl.org/dc/terms/\""));
    assert!(xml.contains("/opds/explore/top"));
    assert!(xml.contains("/opds/explore/subject/science_fiction"));
    assert!(!xml.contains("Search Books"));
}

#[test]
fn root_feed_uses_app_branding() {
    let xml = root_navigation_feed(None, "/opds", &science_fiction(), "shelfd", "Archive");
    assert!(xml.contains("<title>shelfd</title>"));
    assert!(xml.contains("Browse and search Archive through shelfd."));
    assert!(xml.contains("/opds/explore/top"));
}

#[test]
fn feeds_search_feed_contains_entries_and_download_links() {
    let books = vec![example_book()];
    let xml = search_feed(
        "example query",
        &books,
        1,
        false,
        None,
        "shelfd",
        "Archive",
        "https://example.com",
    );
    assert!(xml.contains("Search: example query"));
    assert!(xml.contains("urn:md5:abc123"));
    assert!(xml.contains("/opds/download/abc123"));
    assert!(xml.contains("/opds/cover/abc123"));
    assert!(xml.contains("<opensearch:totalResults>1</opensearch:totalResults>"));
    assert!(xml.contains("<summary type=\"text\">Downloads: 42</summary>"));
    assert!(xml.contains("type=\"application/epub+zip\""));
    assert!(xml.contains("<dc:issued>1954</dc:issued>"));
    assert!(xml.contains("<dc:language>eng</dc:language>"));
    assert!(xml.contains("<category term=\"Science Fiction\""));
    assert!(xml.contains("<category term=\"Fantasy\""));
    assert!(!xml.contains("rel=\"next\""));
    assert!(!xml.contains("rel=\"previous\""));
}

#[test]
fn feeds_search_feed_pagination_links() {
    let books = vec![plain_book()];
    let xml = search_feed(
        "dune",
        &books,
        2,
        true,
        None,
        "shelfd",
        "Archive",
        "https://example.com",
    );
    assert!(xml.contains("rel=\"next\""));
    assert!(xml.contains("/opds/search?q=dune&amp;page=3"));
    assert!(xml.contains("rel=\"previous\""));
    assert!(xml.contains("/opds/search?q=dune&amp;page=1"));
}

#[test]
fn feeds_open_search_description_points_to_search_template() {
    let xml = build_open_search_description(Some("http://localhost:7451"), "shelfd", "Archive");
    assert!(xml.contains("OpenSearchDescription"));
    assert!(xml.contains("template=\"http://localhost:7451/opds/search?q={searchTerms}\""));
}

#[test]
fn feeds_explore_root_feed_contains_top_and_subject_links() {
    let xml = explore_root_feed(
        Some("http://localhost:7451"),
        "/opds/explore",
        &science_fiction(),
        "shelfd",
        "Archive",
    );
    assert!(xml.contains("Popular Top 250"));
    assert!(xml.contains("/opds/explore/top"));
    assert!(xml.contains("/opds/explore/subject/science_fiction"));
}

#[test]
fn search_feed_escapes_markup_in_titles() {
    let mut book = plain_book();
    book.title = "Tom & Jerry <Special>".to_owned();
    let xml = search_feed("t", &vec![book], 1, false, None, "shelfd", "Archive", "https://a.example");
    assert!(xml.contains("Tom &amp; Jerry &lt;Special&gt;"));
    assert!(!xml.contains("<Special>"));
}

#[test]
fn search_feed_first_page_has_no_previous_link() {
    let xml = search_feed("dune", &vec![plain_book()], 1, true, None, "shelfd", "Archive", "https://a.example");
    assert!(xml.contains("rel=\"next\""));
    assert!(xml.contains("/opds/search?q=dune&amp;page=2"));
    assert!(!xml.contains("rel=\"previous\""));
}

#[test]
fn explore_feed_lists_entries_and_pages() {
    let entry = ExploreEntry {
        id: "urn:openlibrary:works/OL1W".to_owned(),
        title: "Dune".to_owned(),
        author: "Frank Herbert".to_owned(),
        summary: "Open Library editions: 12".to_owned(),
        cover_url: Some("https://covers.openlibrary.org/b/id/1-M.jpg".to_owned()),
        search_query: "Dune Frank Herbert".to_owned(),
        alternate_url: "https://openlibrary.org/works/OL1W".to_owned(),
        popularity: 12,
        first_publish_year: Some(1965),
        subjects: vec!["Science Fiction".to_owned()],
    };
    let pages: PaginationPaths = explore_pagination_paths("/opds/explore/top", 2, 1, 3);
    let xml = explore_feed(
        "Popular Top 250",
        "urn:shelfd:explore:top",
        &vec![entry],
        &pages,
        None,
        "shelfd",
    );
    assert!(xml.contains("<title>Popular Top 250</title>"));
    assert!(xml.contains("Dune"));
    assert!(xml.contains("/opds/explore/top?page=3"));
    assert!(xml.contains("rel=\"previous\""));
}
