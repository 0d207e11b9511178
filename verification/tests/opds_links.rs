use shelfd::opds::links::{absolute_url, extract_cover_id, search_page_path};

#[test]
fn absolute_url_with_base() {
    assert_eq!(
        absolute_url(Some("http://localhost:7451"), "/opds/search?q=test"),
        "http://localhost:7451/opds/search?q=test"
    );
}

#[test]
fn absolute_url_without_base() {
    assert_eq!(absolute_url(None, "/opds/search?q=test"), "/opds/search?q=test");
}

#[test]
fn absolute_url_base_with_trailing_slash() {
    assert_eq!(
        absolute_url(Some("http://localhost:7451/"), "/opds/search"),
        "http://localhost:7451/opds/search"
    );
}

#[test]
fn absolute_url_empty_base() {
    assert_eq!(absolute_url(Some(""), "/opds/search"), "/opds/search");
}

#[test]
fn extract_cover_id_numeric() {
    assert_eq!(
        extract_cover_id("https://covers.openlibrary.org/b/id/12345-M.jpg"),
        Some("12345")
    );
}

#[test]
fn extract_cover_id_non_matching() {
    assert!(extract_cover_id("https://example.com/cover.jpg").is_none());
}

#[test]
fn extract_cover_id_empty() {
    assert!(extract_cover_id("").is_none());
}

#[test]
fn extract_cover_id_http_prefix() {
    assert_eq!(
        extract_cover_id("http://covers.openlibrary.org/b/id/999-L.jpg"),
        Some("999")
    );
}

#[test]
fn search_page_path_page_1() {
    assert_eq!(search_page_path("dune", 1), "/opds/search?q=dune&page=1");
}

#[test]
fn search_page_path_page_clamped_to_1() {
    assert_eq!(search_page_path("dune", 0), "/opds/search?q=dune&page=1");
}

#[test]
fn search_page_path_special_chars_encoded() {
    let path = search_page_path("hello world", 1);
    assert!(path.contains("hello+world") || path.contains("hello%20world"));
}

#[test]
fn search_page_path_encodes_reserved_and_multibyte_characters() {
    assert_eq!(search_page_path("a&b=c", 4), "/opds/search?q=a%26b%3Dc&page=4");
    assert_eq!(search_page_path("é", 2), "/opds/search?q=%C3%A9&page=2");
}

#[test]
fn absolute_url_strips_every_trailing_slash() {
    assert_eq!(absolute_url(Some("http://h///"), "/x"), "http://h/x");
}
